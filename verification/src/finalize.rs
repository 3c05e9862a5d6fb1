//! When the journal of a terminal batch may be removed.
use crate::commit_message::{commit_problem, validate_committed_journal, CommitFacts};
use crate::git_error::{GitFailure, GitTransactionError};
use crate::git_text::ObjectId;
use crate::ids::{BatchId, Revision};
use crate::journal::{
    accepted, decode_journal, outcome_from_journal, outcome_of, BatchCommitOutcome, ClaimToken,
    JournalState, JournalView, OutcomeView, RequestFailure, StoredTransactionJournal,
};
use vstd::prelude::*;

verus! {

/// What was observed of a terminal batch. An observation that failed counts only where the
/// decision comes to it.
#[derive(Debug)]
pub struct FinalFacts {
    /// The stored journal, if there is one.
    pub journal: Result<Option<StoredTransactionJournal>, GitTransactionError>,
    /// The identity of the queue.
    pub queue_identity: Result<Revision, GitTransactionError>,
    /// What was read of the journaled commit; looked at only if there is one.
    pub commit: Result<CommitFacts, GitTransactionError>,
    /// Whether the queue was reconciled for this queue, batch, successes and failures.
    pub reconciled: bool,
    /// The commit of the active release, if a release store is given and has one.
    pub release: Result<ActiveCommit, GitTransactionError>,
    /// The official commit.
    pub official: Result<ObjectId, GitTransactionError>,
    /// Whether the worktree of the batch still exists.
    pub worktree: Result<bool, GitTransactionError>,
    /// The commit that the reference of the batch still names.
    pub reference: Result<Option<ObjectId>, GitTransactionError>,
}

/// The commit of the active release.
#[derive(Clone, Copy, Debug, PartialEq, Eq, Structural)]
pub enum ActiveCommit {
    /// No release store is given.
    NoStore,
    /// The release store has no active release.
    Inactive,
    /// The release of this commit is active.
    Active(ObjectId),
}

/// The commit of an outcome.
pub open spec fn outcome_commit(outcome: OutcomeView) -> Option<ObjectId> {
    match outcome {
        BatchCommitOutcome::NoChanges { .. } => None,
        BatchCommitOutcome::Committed { commit, .. } => Some(commit),
    }
}

/// Why the official branch does not stand at a commit.
pub open spec fn official_problem(
    official: Result<ObjectId, GitTransactionError>,
    expected: ObjectId,
) -> Option<GitFailure> {
    match official {
        Err(error) => Some(error@),
        Ok(official) => if official == expected {
            None
        } else {
            Some(GitTransactionError::PublicationIncomplete)
        },
    }
}

/// Why the publication of a batch is not complete: a commit must be released and official, and a
/// batch without one must have left the official branch where it was, with no release store.
pub open spec fn publication_problem(
    commit: Option<ObjectId>,
    base: ObjectId,
    release: Result<ActiveCommit, GitTransactionError>,
    official: Result<ObjectId, GitTransactionError>,
) -> Option<GitFailure> {
    match (commit, release) {
        (Some(commit), Err(error)) => Some(error@),
        (Some(commit), Ok(ActiveCommit::Active(active))) => if active == commit {
            official_problem(official, commit)
        } else {
            Some(GitTransactionError::PublicationIncomplete)
        },
        (None, Ok(ActiveCommit::NoStore)) => official_problem(official, base),
        _ => Some(GitTransactionError::PublicationIncomplete),
    }
}

/// Why something of a batch is still to be cleaned up: its worktree, or else its reference.
pub open spec fn cleanup_problem(
    worktree: Result<bool, GitTransactionError>,
    reference: Result<Option<ObjectId>, GitTransactionError>,
) -> Option<GitFailure> {
    match (worktree, reference) {
        (Err(error), _) => Some(error@),
        (Ok(true), _) => Some(GitTransactionError::JournalState),
        (Ok(false), Err(error)) => Some(error@),
        (Ok(false), Ok(Some(_))) => Some(GitTransactionError::JournalState),
        (Ok(false), Ok(None)) => None,
    }
}

/// Why a journal does not stand for the commit that it names, if it names any.
pub open spec fn committed_problem(
    journal: JournalView,
    commit: Result<CommitFacts, GitTransactionError>,
) -> Option<GitFailure> {
    if journal.state is Committed {
        match commit {
            Err(error) => Some(error@),
            Ok(commit) => commit_problem(journal, commit),
        }
    } else {
        None
    }
}

/// Why the journal of a batch must stay, for a journal that is consistent.
pub open spec fn journal_problem(journal: JournalView, facts: FinalFacts, outcome: OutcomeView) -> Option<
    GitFailure,
> {
    match facts.queue_identity {
        Err(error) => Some(error@),
        Ok(queue_identity) => if journal.queue_identity != queue_identity {
            Some(GitTransactionError::JournalMismatch)
        } else if committed_problem(journal, facts.commit) is Some {
            committed_problem(journal, facts.commit)
        } else {
            match outcome_of(journal) {
                Err(failure) => Some(failure),
                Ok(recorded) => {
                    let publication = publication_problem(
                        outcome_commit(outcome),
                        journal.base_commit,
                        facts.release,
                        facts.official,
                    );
                    if recorded != outcome || !facts.reconciled {
                        Some(GitTransactionError::JournalMismatch)
                    } else if publication is Some {
                        publication
                    } else {
                        cleanup_problem(facts.worktree, facts.reference)
                    }
                },
            }
        },
    }
}

/// Why the journal of a batch must stay.
pub open spec fn final_problem(batch_id: BatchId, facts: FinalFacts, outcome: OutcomeView) -> Option<
    GitFailure,
> {
    match facts.journal {
        Err(error) => Some(error@),
        Ok(None) => Some(GitTransactionError::JournalMissing),
        Ok(Some(stored)) => match accepted(stored, batch_id) {
            Err(failure) => Some(failure),
            Ok(journal) => journal_problem(journal, facts, outcome),
        },
    }
}

/// Whether two lists of tokens are the same.
fn same_tokens(left: &Vec<ClaimToken>, right: &Vec<ClaimToken>) -> (same: bool)
    ensures
        same == (left@ == right@),
{
    if left.len() != right.len() {
        return false;
    }
    let mut i: usize = 0;
    while i < left.len()
        invariant
            i <= left@.len() == right@.len(),
            forall|j: int| 0 <= j < i ==> left@[j] == right@[j],
        decreases left@.len() - i,
    {
        if left[i] != right[i] {
            return false;
        }
        i += 1;
    }
    assert(left@ =~= right@);
    true
}

/// Whether two lists of failures are the same.
fn same_failures(left: &Vec<RequestFailure>, right: &Vec<RequestFailure>) -> (same: bool)
    ensures
        same == (left@ == right@),
{
    if left.len() != right.len() {
        return false;
    }
    let mut i: usize = 0;
    while i < left.len()
        invariant
            i <= left@.len() == right@.len(),
            forall|j: int| 0 <= j < i ==> left@[j] == right@[j],
        decreases left@.len() - i,
    {
        if left[i] != right[i] {
            return false;
        }
        i += 1;
    }
    assert(left@ =~= right@);
    true
}

/// Whether two outcomes are the same.
pub fn same_outcome(left: &BatchCommitOutcome, right: &BatchCommitOutcome) -> (same: bool)
    ensures
        same == (left@ == right@),
{
    match (left, right) {
        (
            BatchCommitOutcome::NoChanges { failures },
            BatchCommitOutcome::NoChanges { failures: others },
        ) => same_failures(failures, others),
        (
            BatchCommitOutcome::Committed { commit, successful, failures },
            BatchCommitOutcome::Committed {
                commit: other_commit,
                successful: other_successful,
                failures: others,
            },
        ) => *commit == *other_commit && same_tokens(successful, other_successful) && same_failures(
            failures,
            others,
        ),
        _ => false,
    }
}

/// The parts of an outcome: its commit, its successes and its failures.
pub fn outcome_parts(outcome: &BatchCommitOutcome) -> (parts: (
    Option<ObjectId>,
    Option<&Vec<ClaimToken>>,
    &Vec<RequestFailure>,
))
    ensures
        parts.0 == outcome_commit(outcome@),
        match outcome@ {
            BatchCommitOutcome::NoChanges { failures } => parts.1 is None && parts.2@ == failures,
            BatchCommitOutcome::Committed { successful, failures, .. } => (
            parts.1 matches Some(tokens) && tokens@ == successful) && parts.2@ == failures,
        },
{
    match outcome {
        BatchCommitOutcome::NoChanges { failures } => (None, None, failures),
        BatchCommitOutcome::Committed { commit, successful, failures } => (
            Some(*commit),
            Some(successful),
            failures,
        ),
    }
}

/// Checks that the publication of a batch is complete.
pub fn check_publication(
    commit: Option<ObjectId>,
    base: ObjectId,
    release: Result<ActiveCommit, GitTransactionError>,
    official: Result<ObjectId, GitTransactionError>,
) -> (result: Result<(), GitTransactionError>)
    ensures
        match result {
            Ok(()) => publication_problem(commit, base, release, official) is None,
            Err(error) => publication_problem(commit, base, release, official) == Some(error@),
        },
{
    let expected = match (commit, release) {
        (Some(_), Err(error)) => {
            return Err(error);
        },
        (Some(commit), Ok(ActiveCommit::Active(active))) => {
            if active != commit {
                return Err(GitTransactionError::PublicationIncomplete);
            }
            commit
        },
        (None, Ok(ActiveCommit::NoStore)) => base,
        _ => {
            return Err(GitTransactionError::PublicationIncomplete);
        },
    };
    match official {
        Err(error) => Err(error),
        Ok(official) => if official == expected {
            Ok(())
        } else {
            Err(GitTransactionError::PublicationIncomplete)
        },
    }
}

/// Checks that nothing of a batch is left to clean up.
pub fn check_cleanup(
    worktree: Result<bool, GitTransactionError>,
    reference: Result<Option<ObjectId>, GitTransactionError>,
) -> (result: Result<(), GitTransactionError>)
    ensures
        match result {
            Ok(()) => cleanup_problem(worktree, reference) is None,
            Err(error) => cleanup_problem(worktree, reference) == Some(error@),
        },
{
    match worktree {
        Err(error) => Err(error),
        Ok(true) => Err(GitTransactionError::JournalState),
        Ok(false) => match reference {
            Err(error) => Err(error),
            Ok(Some(_)) => Err(GitTransactionError::JournalState),
            Ok(None) => Ok(()),
        },
    }
}

/// Decides whether the journal of a terminal batch may be removed: the journal, the queue, the
/// outcome and the active release must all describe the same batch, and nothing of it may be left.
pub fn finalize_batch(batch_id: BatchId, facts: FinalFacts, outcome: &BatchCommitOutcome) -> (result:
    Result<(), GitTransactionError>)
    ensures
        match result {
            Ok(()) => final_problem(batch_id, facts, outcome@) is None,
            Err(error) => final_problem(batch_id, facts, outcome@) == Some(error@),
        },
{
    let FinalFacts {
        journal,
        queue_identity,
        commit,
        reconciled,
        release,
        official,
        worktree,
        reference,
    } = facts;
    let journal = match journal {
        Err(error) => {
            return Err(error);
        },
        Ok(None) => {
            return Err(GitTransactionError::JournalMissing);
        },
        Ok(Some(stored)) => match decode_journal(stored, batch_id) {
            Err(error) => {
                return Err(error);
            },
            Ok(journal) => journal,
        },
    };
    match queue_identity {
        Err(error) => {
            return Err(error);
        },
        Ok(queue_identity) => {
            if journal.queue_identity != queue_identity {
                return Err(GitTransactionError::JournalMismatch);
            }
        },
    }
    let is_committed = match &journal.state {
        JournalState::Committed { .. } => true,
        _ => false,
    };
    if is_committed {
        match commit {
            Err(error) => {
                return Err(error);
            },
            Ok(commit) => match validate_committed_journal(&journal, &commit) {
                Err(error) => {
                    return Err(error);
                },
                Ok(()) => {},
            },
        }
    }
    let recorded = match outcome_from_journal(&journal) {
        Err(error) => {
            return Err(error);
        },
        Ok(recorded) => recorded,
    };
    if !same_outcome(&recorded, outcome) || !reconciled {
        return Err(GitTransactionError::JournalMismatch);
    }
    let (outcome_commit, _, _) = outcome_parts(outcome);
    match check_publication(outcome_commit, journal.base_commit, release, official) {
        Err(error) => Err(error),
        Ok(()) => check_cleanup(worktree, reference),
    }
}

/// A journal is removed only once its batch is complete: a committed batch is then official and
/// released, and nothing of it is left to clean up.
pub proof fn finalized_batches_are_published(
    batch_id: BatchId,
    facts: FinalFacts,
    outcome: OutcomeView,
)
    requires
        final_problem(batch_id, facts, outcome) is None,
    ensures
        facts.reconciled,
        facts.worktree matches Ok(worktree) && !worktree,
        facts.reference matches Ok(reference) && reference is None,
        outcome_commit(outcome) matches Some(commit) ==> (facts.official matches Ok(official)
            && official == commit) && (facts.release matches Ok(release) && release
            == ActiveCommit::Active(commit)),
        facts.journal matches Ok(Some(stored)) && accepted(stored, batch_id) matches Ok(journal)
            && outcome_of(journal) == Ok::<OutcomeView, GitFailure>(outcome),
{
}

} // verus!
