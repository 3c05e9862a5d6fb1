//! The transaction that applies a batch to the repository and publishes it.
//!
//! A transaction orders one action at a time and decides from the reply what comes next. Nothing
//! here touches files or runs Git: whoever performs the actions hands the replies back.
use crate::apply::{error_code, move_views, AppliedFileMove, ApplyError, ApplyFailure, PathView};
use crate::changes::{
    components_of, counted, path_from_text, reduce_moves, reduced, staged_stats, FileStats,
};
use crate::commit_message::{
    commit_message, commit_problem, has_only_parent, message_lines, only_parent,
    validate_committed_journal, CommitFacts,
};
use crate::fields::unlines;
use crate::git_error::{git_message, GitFailure, GitTransactionError};
use crate::git_output::{printed_is, untracked, untracked_files};
use crate::git_text::{parse_object_id, printed_object, printed_text, ObjectId};
use crate::ids::{ulid_text, BatchId, RequestId, Revision};
use crate::journal::{
    accepted, claims_problem, decode_journal, journal_claims, journaled_all, journaled_failures,
    outcome_from_journal, outcome_of, token_requests, validate_batch_claims,
    validate_journal_claims, BatchCommitOutcome, Claim, ClaimToken, JournalFailure, JournalState,
    JournalView, OutcomeView, RequestFailure, StateView, StoredTransactionJournal,
    TransactionJournal,
};
use crate::path::texts;
use crate::repository::{is_alone, no_other_journal, resolve_tree_path, tree_object};
use vstd::prelude::*;
use vstd::string::*;

verus! {

/// What a transaction is for.
#[derive(Clone, Copy, Debug, PartialEq, Eq, Structural)]
pub enum Purpose {
    /// Apply a batch, commit it and advance the official branch.
    Apply,
    /// Resume a batch whose outcome is journaled.
    Recover,
    /// Discard a batch that is still preparing.
    Abort,
}

/// The batch that a transaction works on.
#[derive(Debug)]
pub struct BatchSettings {
    /// Identity of the batch.
    pub batch_id: BatchId,
    /// The claims in queue order.
    pub claims: Vec<Claim>,
    /// Requests rejected while the batch was claimed.
    pub claim_failures: u64,
    /// The worktree of the batch, as shown.
    pub worktree: String,
}

/// Where a transaction stands: which reply it waits for.
#[derive(Clone, Copy, Debug, PartialEq, Eq, Structural)]
pub enum Phase {
    /// The queue must be ready.
    Readying,
    /// The journals are being listed.
    Listing,
    /// The journal of the batch is being read.
    Reading,
    /// The queue of a journal that was read is being identified.
    Identifying,
    /// The official commit is compared with that of an earlier attempt.
    ComparingBase { base: ObjectId },
    /// The claims of an earlier attempt are being checked.
    Rechecking { base: ObjectId },
    /// The claims of a batch to discard are being checked.
    AbortClaims,
    /// The official commit is compared with the journaled one.
    ConfirmingBase { base: ObjectId },
    /// An earlier worktree is being removed.
    DiscardingWorktree { base: ObjectId },
    /// The reference of an earlier attempt is looked for.
    DiscardingRef { base: ObjectId },
    /// The commit of an earlier attempt is being inspected.
    InspectingRef { base: ObjectId, commit: ObjectId },
    /// The reference of an earlier attempt is looked for again.
    ResolvingRef { commit: ObjectId },
    /// The reference of an earlier attempt is being deleted.
    DeletingRef,
    /// The journal of an earlier attempt is being removed.
    DiscardingJournal,
    /// Storage is validated after a discarded batch.
    AbortStorage,
    /// The claims are being checked.
    CheckingClaims,
    /// The canonical worktree is being checked.
    CheckingCanonical,
    /// The official commit is being pinned.
    Pinning,
    /// The place of the worktree is being checked.
    CheckingWorktree { base: ObjectId },
    /// The queue is being identified for a new journal.
    Naming { base: ObjectId },
    /// The first journal is being written.
    Preparing { base: ObjectId },
    /// The worktree is being added.
    Adding { base: ObjectId },
    /// The tree of the worktree is being resolved.
    Rooting { base: ObjectId },
    /// A claim is being applied on top of a tree.
    Applying { base: ObjectId, tree: ObjectId },
    /// The applied claim is being staged.
    Staging { base: ObjectId },
    /// The worktree is being reset to a tree.
    Resetting { base: ObjectId, tree: ObjectId },
    /// The journal of a batch without changes is being written.
    Emptying { base: ObjectId },
    /// The worktree of a batch without changes is being removed.
    EmptyWorktree { base: ObjectId },
    /// The official commit is compared after a batch without changes.
    EmptyOfficial { base: ObjectId },
    /// Storage is validated after a batch without changes.
    EmptyStorage,
    /// The changes are being counted.
    Counting { base: ObjectId, tree: ObjectId },
    /// The trial build is running.
    Building { base: ObjectId, tree: ObjectId, stats: FileStats },
    /// The built worktree is being inspected.
    Inspecting { base: ObjectId, tree: ObjectId, stats: FileStats },
    /// The commit is being created.
    Committing { base: ObjectId },
    /// The reference that keeps the commit is being created.
    Referring { base: ObjectId, commit: ObjectId },
    /// The commit is being journaled.
    Recording { base: ObjectId, commit: ObjectId },
    /// The journaled commit is being inspected.
    Confirming { base: ObjectId, commit: ObjectId },
    /// The official commit is compared before a resumed publication.
    RecoverBase { base: ObjectId, commit: ObjectId },
    /// Derived output is being prepared.
    Announcing { base: ObjectId, commit: ObjectId },
    /// The start of the publication is being journaled.
    Starting { base: ObjectId, commit: ObjectId },
    /// Storage is validated before the publication.
    PublishStorage { base: ObjectId, commit: ObjectId },
    /// The canonical worktree is being locked.
    Locking { base: ObjectId, commit: ObjectId },
    /// The official commit is being read under the lock.
    PublishBase { base: ObjectId, commit: ObjectId },
    /// The canonical worktree is checked under the lock.
    PublishCanonical { base: ObjectId, commit: ObjectId },
    /// The reference that keeps the commit is checked under the lock.
    PublishRef { base: ObjectId, commit: ObjectId },
    /// Storage is validated right before the branch advances.
    SwapStorage { base: ObjectId, commit: ObjectId },
    /// The official branch is being advanced.
    Swapping { base: ObjectId, commit: ObjectId },
    /// Untracked files of the canonical worktree are being listed.
    Residue { base: ObjectId, commit: ObjectId },
    /// One untracked file is being compared.
    ResidueFile { base: ObjectId, commit: ObjectId },
    /// The canonical worktree is being synchronized.
    Syncing { commit: ObjectId },
    /// The worktree of the batch is being removed.
    CleaningWorktree { commit: ObjectId },
    /// The reference of the batch is looked for.
    CleaningRef { commit: ObjectId },
    /// The reference of the batch is being deleted.
    DeletingOld { commit: ObjectId },
    /// Storage is validated after the publication.
    CleanStorage { commit: ObjectId },
    /// Storage is validated after a recovery.
    FinalStorage,
    /// Nothing is left to do.
    Finished,
}

/// One action that a transaction orders.
#[derive(Debug)]
pub enum Action<J = TransactionJournal, T = String, O = BatchCommitOutcome, E = GitTransactionError> {
    /// Make sure that the queue is ready for a transaction.
    EnsureReady,
    /// List the journal directory.
    ListJournals,
    /// Read the journal of the batch.
    ReadJournal,
    /// Identify the queue.
    IdentifyQueue,
    /// Resolve the official branch.
    ResolveOfficial,
    /// Ask the queue about each claim.
    InspectClaims,
    /// Remove the worktree of the batch, if there is one.
    RemoveWorktree,
    /// Resolve the reference of the batch.
    ResolveTransactionRef,
    /// Read the parents and the batch trailer of a commit.
    InspectPreparing { commit: ObjectId },
    /// Delete the reference of the batch, which names a commit.
    DeleteTransactionRef { commit: ObjectId },
    /// Remove the journal of the batch.
    RemoveJournal,
    /// Read the status of the canonical worktree.
    InspectCanonical,
    /// See whether the worktree of the batch exists.
    InspectWorktree,
    /// Write the journal of the batch durably.
    WriteJournal(J),
    /// Add the worktree of the batch at a commit.
    AddWorktree { base: ObjectId },
    /// Resolve the tree of the worktree.
    ResolveTree,
    /// Apply one claim in the worktree, after the queue confirmed it.
    ApplyClaim { index: usize },
    /// Stage everything in the worktree and write its tree.
    StageTree,
    /// Reset the worktree to a tree.
    ResetWorktree { tree: ObjectId },
    /// List the staged changes against a commit.
    ReadDifference { base: ObjectId },
    /// Build the worktree.
    TrialBuild,
    /// Read what the build left in the worktree.
    InspectPrepared,
    /// Create a commit.
    CommitTree { tree: ObjectId, base: ObjectId, message: T },
    /// Create the reference of the batch.
    CreateTransactionRef { commit: ObjectId },
    /// Read a commit.
    InspectCommit { commit: ObjectId },
    /// Prepare derived output for a commit.
    BeforePublish { base: ObjectId, commit: ObjectId },
    /// Validate the storage.
    ValidateStorage,
    /// Lock the canonical worktree.
    LockCanonical,
    /// Advance the official branch from one commit to another.
    CompareAndSwap { base: ObjectId, commit: ObjectId },
    /// List the untracked files of the canonical worktree.
    InspectResidue,
    /// Read what a commit and the canonical worktree hold at a path.
    InspectFile { base: ObjectId, path: T },
    /// Synchronize the canonical worktree with a commit.
    SyncCanonical { commit: ObjectId },
    /// End, with an outcome unless the batch was discarded.
    Finish(Result<Option<O>, E>),
}

/// An action with its texts and lists as sequences.
pub type ActionView = Action<JournalView, Seq<char>, OutcomeView, GitFailure>;

impl View for Action {
    type V = ActionView;

    open spec fn view(&self) -> ActionView {
        match *self {
            Action::EnsureReady => Action::EnsureReady,
            Action::ListJournals => Action::ListJournals,
            Action::ReadJournal => Action::ReadJournal,
            Action::IdentifyQueue => Action::IdentifyQueue,
            Action::ResolveOfficial => Action::ResolveOfficial,
            Action::InspectClaims => Action::InspectClaims,
            Action::RemoveWorktree => Action::RemoveWorktree,
            Action::ResolveTransactionRef => Action::ResolveTransactionRef,
            Action::InspectPreparing { commit } => Action::InspectPreparing { commit },
            Action::DeleteTransactionRef { commit } => Action::DeleteTransactionRef { commit },
            Action::RemoveJournal => Action::RemoveJournal,
            Action::InspectCanonical => Action::InspectCanonical,
            Action::InspectWorktree => Action::InspectWorktree,
            Action::WriteJournal(journal) => Action::WriteJournal(journal@),
            Action::AddWorktree { base } => Action::AddWorktree { base },
            Action::ResolveTree => Action::ResolveTree,
            Action::ApplyClaim { index } => Action::ApplyClaim { index },
            Action::StageTree => Action::StageTree,
            Action::ResetWorktree { tree } => Action::ResetWorktree { tree },
            Action::ReadDifference { base } => Action::ReadDifference { base },
            Action::TrialBuild => Action::TrialBuild,
            Action::InspectPrepared => Action::InspectPrepared,
            Action::CommitTree { tree, base, message } => Action::CommitTree {
                tree,
                base,
                message: message@,
            },
            Action::CreateTransactionRef { commit } => Action::CreateTransactionRef { commit },
            Action::InspectCommit { commit } => Action::InspectCommit { commit },
            Action::BeforePublish { base, commit } => Action::BeforePublish { base, commit },
            Action::ValidateStorage => Action::ValidateStorage,
            Action::LockCanonical => Action::LockCanonical,
            Action::CompareAndSwap { base, commit } => Action::CompareAndSwap { base, commit },
            Action::InspectResidue => Action::InspectResidue,
            Action::InspectFile { base, path } => Action::InspectFile { base, path: path@ },
            Action::SyncCanonical { commit } => Action::SyncCanonical { commit },
            Action::Finish(Ok(Some(outcome))) => Action::Finish(Ok(Some(outcome@))),
            Action::Finish(Ok(None)) => Action::Finish(Ok(None)),
            Action::Finish(Err(error)) => Action::Finish(Err(error@)),
        }
    }
}

/// What came of an action.
#[derive(Debug)]
pub enum Reply {
    /// It was done.
    Done,
    /// A publication callback refused.
    Rejected,
    /// It failed.
    Failed(GitTransactionError),
    /// The names in the journal directory.
    Names(Vec<String>),
    /// The stored journal, if there is one.
    Journal(Option<StoredTransactionJournal>),
    /// The identity of the queue.
    Identity(Revision),
    /// The object that was resolved or created.
    Object(ObjectId),
    /// The commit that a reference names, if it exists.
    Reference(Option<ObjectId>),
    /// For each claim nothing, or why the queue does not own it.
    Ownership(Vec<Option<String>>),
    /// Printed output.
    Output(Vec<u8>),
    /// Whether something exists.
    Exists(bool),
    /// The parents and the batch trailer of a commit, as printed.
    Trailers { parents: Vec<u8>, trailer: Vec<u8> },
    /// The claim was applied, with these moves of files.
    Applied(Vec<AppliedFileMove>),
    /// The claim could not be applied.
    Refused(ApplyError),
    /// What the build left: unstaged files, untracked files, ignored files, and the tree, as
    /// printed.
    Prepared { unstaged: Vec<u8>, visible: Vec<u8>, ignored: Vec<u8>, tree: Vec<u8> },
    /// What was read of a commit.
    Commit(CommitFacts),
    /// The official branch did not advance, and names this commit.
    SwapRefused { actual: ObjectId, arguments: String, stderr: String },
    /// Untracked files and ignored files, as printed.
    Untracked { visible: Vec<u8>, ignored: Vec<u8> },
    /// The entry of a tree and the object of a file, as printed.
    File { record: Vec<u8>, object: Vec<u8> },
}

/// A transaction under way.
#[derive(Debug)]
pub struct Transaction<
    J = Option<TransactionJournal>,
    S = Vec<ClaimToken>,
    F = Vec<RequestFailure>,
    M = Vec<AppliedFileMove>,
    E = Option<ApplyError>,
    P = Vec<String>,
> {
    /// What the transaction is for.
    pub purpose: Purpose,
    /// Where it stands.
    pub phase: Phase,
    /// The journal as it was last read or ordered to be written.
    pub journal: J,
    /// The number of claims that are decided.
    pub next: usize,
    /// The claims that were applied.
    pub successful: S,
    /// The claims that were not.
    pub failures: F,
    /// The moves of files in what was applied.
    pub moves: M,
    /// The moves of files in what is being staged.
    pub staged: M,
    /// Why the claim that is being undone could not be applied.
    pub refused: E,
    /// The untracked files of the canonical worktree.
    pub paths: P,
    /// The number of untracked files that were compared.
    pub compared: usize,
}

/// A transaction with its texts and lists as sequences.
pub type TransactionView = Transaction<
    Option<JournalView>,
    Seq<ClaimToken>,
    Seq<RequestFailure>,
    Seq<AppliedFileMove<PathView>>,
    Option<ApplyFailure>,
    Seq<Seq<char>>,
>;

impl View for Transaction {
    type V = TransactionView;

    open spec fn view(&self) -> TransactionView {
        Transaction {
            purpose: self.purpose,
            phase: self.phase,
            journal: match self.journal {
                Some(journal) => Some(journal@),
                None => None,
            },
            next: self.next,
            successful: self.successful@,
            failures: self.failures@,
            moves: move_views(self.moves@),
            staged: move_views(self.staged@),
            refused: match self.refused {
                Some(error) => Some(error@),
                None => None,
            },
            paths: texts(self.paths@),
            compared: self.compared,
        }
    }
}

/// A transaction and what it orders.
pub type Step = (TransactionView, ActionView);

/// A transaction that waits in a phase for an action.
pub open spec fn go(state: TransactionView, phase: Phase, action: ActionView) -> Step {
    (Transaction { phase, ..state }, action)
}

/// A transaction that failed.
pub open spec fn stop(state: TransactionView, failure: GitFailure) -> Step {
    go(state, Phase::Finished, Action::Finish(Err(failure)))
}

/// A transaction that ended as it should.
pub open spec fn conclude(state: TransactionView, outcome: Option<OutcomeView>) -> Step {
    go(state, Phase::Finished, Action::Finish(Ok(outcome)))
}

/// A transaction that writes its journal.
pub open spec fn write(state: TransactionView, phase: Phase, journal: JournalView) -> Step {
    go(Transaction { journal: Some(journal), ..state }, phase, Action::WriteJournal(journal))
}

/// A transaction that goes on only if the official commit is still the expected one.
pub open spec fn unless_changed(
    state: TransactionView,
    expected: ObjectId,
    actual: ObjectId,
    then_step: Step,
) -> Step {
    if actual != expected {
        stop(state, GitTransactionError::OfficialBranchChanged { expected, actual })
    } else {
        then_step
    }
}

/// What follows once the queue of a journal is known to be the right one.
pub open spec fn identified(
    settings: BatchSettings,
    state: TransactionView,
    journal: JournalView,
) -> Step {
    let base = journal.base_commit;
    match (state.purpose, journal.state) {
        (Purpose::Apply, JournalState::Preparing) => go(
            state,
            Phase::ComparingBase { base },
            Action::ResolveOfficial,
        ),
        (Purpose::Apply, _) => stop(
            state,
            GitTransactionError::TransactionRequiresRecovery { batch_id: settings.batch_id },
        ),
        (Purpose::Abort, JournalState::Preparing) => go(
            state,
            Phase::AbortClaims,
            Action::InspectClaims,
        ),
        (Purpose::Recover, JournalState::NoChanges { .. }) => go(
            state,
            Phase::ConfirmingBase { base },
            Action::ResolveOfficial,
        ),
        (Purpose::Recover, JournalState::Committed { commit, .. }) => go(
            state,
            Phase::Confirming { base, commit },
            Action::InspectCommit { commit },
        ),
        _ => stop(state, GitTransactionError::JournalState),
    }
}

/// How a transaction finds out where the batch stands.
pub open spec fn discovering(
    settings: BatchSettings,
    state: TransactionView,
    reply: Reply,
) -> Step {
    match (state.phase, reply) {
        (Phase::Readying, Reply::Done) => go(state, Phase::Listing, Action::ListJournals),
        (Phase::Listing, Reply::Names(names)) => if is_alone(texts(names@), settings.batch_id) {
            go(state, Phase::Reading, Action::ReadJournal)
        } else {
            stop(state, GitTransactionError::UnfinishedTransaction)
        },
        (Phase::Reading, Reply::Journal(None)) => if state.purpose == Purpose::Apply {
            go(state, Phase::CheckingClaims, Action::InspectClaims)
        } else {
            stop(state, GitTransactionError::JournalMissing)
        },
        (Phase::Reading, Reply::Journal(Some(stored))) => match accepted(
            stored,
            settings.batch_id,
        ) {
            Err(failure) => stop(state, failure),
            Ok(journal) => go(
                Transaction { journal: Some(journal), ..state },
                Phase::Identifying,
                Action::IdentifyQueue,
            ),
        },
        (Phase::Identifying, Reply::Identity(identity)) => match state.journal {
            None => stop(state, GitTransactionError::JournalMissing),
            Some(journal) => if journal.queue_identity != identity {
                stop(state, GitTransactionError::JournalMismatch)
            } else {
                identified(settings, state, journal)
            },
        },
        _ => stop(state, GitTransactionError::InvalidGitOutput),
    }
}

/// Why the claims of a batch are not those that the queue owns and a journal records.
pub open spec fn ownership_problem(
    settings: BatchSettings,
    ownership: Seq<Option<String>>,
    journal: Option<JournalView>,
    count_failures: bool,
) -> Option<GitFailure> {
    if ownership.len() != settings.claims@.len() {
        Some(GitTransactionError::InvalidClaims)
    } else if let Some(failure) = claims_problem(
        settings.batch_id,
        settings.claims@,
        ownership,
        0,
    ) {
        Some(failure)
    } else {
        match journal {
            None => None,
            Some(journal) => if journal.claims != journaled_all(settings.claims@)
                || count_failures && journal.claim_failures != settings.claim_failures {
                Some(GitTransactionError::JournalMismatch)
            } else {
                None
            },
        }
    }
}

/// What follows once the reference of an earlier attempt is gone.
pub open spec fn discarded(state: TransactionView) -> Step {
    if state.purpose == Purpose::Recover {
        go(state, Phase::FinalStorage, Action::ValidateStorage)
    } else {
        go(state, Phase::DiscardingJournal, Action::RemoveJournal)
    }
}

/// Why a commit is not that of an earlier attempt of the batch.
pub open spec fn preparing_problem(
    batch_id: BatchId,
    base: ObjectId,
    commit: ObjectId,
    parents: Seq<u8>,
    trailer: Seq<u8>,
) -> Option<GitFailure> {
    match only_parent(parents, commit, base) {
        Err(failure) => Some(failure),
        Ok(false) => Some(GitTransactionError::JournalMismatch),
        Ok(true) => match printed_text(trailer) {
            None => Some(GitTransactionError::InvalidGitOutput),
            Some(text) => if text == ulid_text(batch_id.value) {
                None
            } else {
                Some(GitTransactionError::JournalMismatch)
            },
        },
    }
}

/// How a transaction discards what an earlier attempt left.
pub open spec fn discarding(settings: BatchSettings, state: TransactionView, reply: Reply) -> Step {
    match (state.phase, reply) {
        (Phase::ComparingBase { base }, Reply::Object(actual)) => unless_changed(
            state,
            base,
            actual,
            go(state, Phase::Rechecking { base }, Action::InspectClaims),
        ),
        (Phase::Rechecking { base }, Reply::Ownership(ownership)) => match ownership_problem(
            settings,
            ownership@,
            state.journal,
            true,
        ) {
            Some(failure) => stop(state, failure),
            None => go(state, Phase::DiscardingWorktree { base }, Action::RemoveWorktree),
        },
        (Phase::AbortClaims, Reply::Ownership(ownership)) => match (
            ownership_problem(settings, ownership@, state.journal, false),
            state.journal,
        ) {
            (Some(failure), _) => stop(state, failure),
            (None, Some(journal)) => go(
                state,
                Phase::ConfirmingBase { base: journal.base_commit },
                Action::ResolveOfficial,
            ),
            (None, None) => stop(state, GitTransactionError::JournalMissing),
        },
        (Phase::ConfirmingBase { base }, Reply::Object(actual)) => unless_changed(
            state,
            base,
            actual,
            go(state, Phase::DiscardingWorktree { base }, Action::RemoveWorktree),
        ),
        (Phase::DiscardingWorktree { base }, Reply::Done) => go(
            state,
            Phase::DiscardingRef { base },
            Action::ResolveTransactionRef,
        ),
        (Phase::DiscardingRef { base }, Reply::Reference(None)) => discarded(state),
        (Phase::DiscardingRef { base }, Reply::Reference(Some(commit))) => go(
            state,
            Phase::InspectingRef { base, commit },
            Action::InspectPreparing { commit },
        ),
        (Phase::InspectingRef { base, commit }, Reply::Trailers { parents, trailer }) =>
            match preparing_problem(settings.batch_id, base, commit, parents@, trailer@) {
                Some(failure) => stop(state, failure),
                None => go(state, Phase::ResolvingRef { commit }, Action::ResolveTransactionRef),
            },
        (Phase::ResolvingRef { commit }, Reply::Reference(None)) => discarded(state),
        (Phase::ResolvingRef { commit }, Reply::Reference(Some(actual))) => if actual != commit {
            stop(state, GitTransactionError::JournalMismatch)
        } else {
            go(state, Phase::DeletingRef, Action::DeleteTransactionRef { commit })
        },
        (Phase::DeletingRef, Reply::Done) => discarded(state),
        (Phase::DiscardingJournal, Reply::Done) => {
            let forgotten = Transaction { journal: None, ..state };
            if state.purpose == Purpose::Apply {
                go(forgotten, Phase::CheckingClaims, Action::InspectClaims)
            } else {
                go(forgotten, Phase::AbortStorage, Action::ValidateStorage)
            }
        },
        (Phase::AbortStorage, Reply::Done) => conclude(state, None),
        _ => stop(state, GitTransactionError::InvalidGitOutput),
    }
}

/// The journal of a batch whose claims are recorded.
pub open spec fn preparing_journal(
    settings: BatchSettings,
    base: ObjectId,
    queue_identity: Revision,
) -> JournalView {
    TransactionJournal {
        batch_id: settings.batch_id,
        queue_identity,
        base_commit: base,
        claims: journaled_all(settings.claims@),
        claim_failures: settings.claim_failures,
        state: JournalState::Preparing,
    }
}

/// A transaction that writes its journal with another state.
pub open spec fn write_state(state: TransactionView, phase: Phase, recorded: StateView) -> Step {
    match state.journal {
        None => stop(state, GitTransactionError::JournalMissing),
        Some(journal) => write(state, phase, TransactionJournal { state: recorded, ..journal }),
    }
}

/// What follows once every claim is decided.
pub open spec fn decided_all(state: TransactionView, base: ObjectId, tree: ObjectId) -> Step {
    if state.successful.len() == 0 {
        write_state(
            state,
            Phase::Emptying { base },
            JournalState::NoChanges { failures: journaled_failures(state.failures) },
        )
    } else if reduced(state.moves) is None {
        stop(state, GitTransactionError::InvalidGitOutput)
    } else {
        go(state, Phase::Counting { base, tree }, Action::ReadDifference { base })
    }
}

/// What follows once a claim is decided, on top of a tree.
pub open spec fn next_claim(
    settings: BatchSettings,
    state: TransactionView,
    base: ObjectId,
    tree: ObjectId,
) -> Step {
    if state.next < settings.claims@.len() {
        go(state, Phase::Applying { base, tree }, Action::ApplyClaim { index: state.next })
    } else {
        decided_all(state, base, tree)
    }
}

/// How a transaction prepares a worktree.
pub open spec fn preparing(settings: BatchSettings, state: TransactionView, reply: Reply) -> Step {
    match (state.phase, reply) {
        (Phase::CheckingClaims, Reply::Ownership(ownership)) => match ownership_problem(
            settings,
            ownership@,
            None,
            false,
        ) {
            Some(failure) => stop(state, failure),
            None => go(state, Phase::CheckingCanonical, Action::InspectCanonical),
        },
        (Phase::CheckingCanonical, Reply::Output(status)) => if status@.len() > 0 {
            stop(state, GitTransactionError::CanonicalWorktreeDirty)
        } else {
            go(state, Phase::Pinning, Action::ResolveOfficial)
        },
        (Phase::Pinning, Reply::Object(base)) => go(
            state,
            Phase::CheckingWorktree { base },
            Action::InspectWorktree,
        ),
        (Phase::CheckingWorktree { base }, Reply::Exists(found)) => if found {
            stop(state, GitTransactionError::WorktreeAlreadyExists(settings.worktree@))
        } else {
            go(state, Phase::Naming { base }, Action::IdentifyQueue)
        },
        (Phase::Naming { base }, Reply::Identity(identity)) => write(
            state,
            Phase::Preparing { base },
            preparing_journal(settings, base, identity),
        ),
        (Phase::Preparing { base }, Reply::Done) => go(
            state,
            Phase::Adding { base },
            Action::AddWorktree { base },
        ),
        (Phase::Adding { base }, Reply::Done) => go(
            state,
            Phase::Rooting { base },
            Action::ResolveTree,
        ),
        (Phase::Rooting { base }, Reply::Object(tree)) => next_claim(settings, state, base, tree),
        _ => stop(state, GitTransactionError::InvalidGitOutput),
    }
}

/// How a transaction applies claims: a claim that is refused is undone, and ends the transaction
/// unless it is the fault of its request.
pub open spec fn applying(settings: BatchSettings, state: TransactionView, reply: Reply) -> Step {
    match (state.phase, reply) {
        (Phase::Applying { base, tree }, Reply::Applied(moves)) => go(
            Transaction { staged: move_views(moves@), ..state },
            Phase::Staging { base },
            Action::StageTree,
        ),
        (Phase::Applying { base, tree }, Reply::Refused(error)) => go(
            Transaction { refused: Some(error@), ..state },
            Phase::Resetting { base, tree },
            Action::ResetWorktree { tree },
        ),
        (Phase::Staging { base }, Reply::Object(tree)) => if state.next
            >= settings.claims@.len() {
            stop(state, GitTransactionError::InvalidClaims)
        } else {
            next_claim(
                settings,
                Transaction {
                    next: (state.next + 1) as usize,
                    successful: state.successful.push(settings.claims@[state.next as int].token),
                    moves: state.moves + state.staged,
                    staged: Seq::empty(),
                    ..state
                },
                base,
                tree,
            )
        },
        (Phase::Resetting { base, tree }, Reply::Done) => match state.refused {
            None => stop(state, GitTransactionError::InvalidClaims),
            Some(failure) => if state.next >= settings.claims@.len() {
                stop(state, GitTransactionError::InvalidClaims)
            } else {
                let token = settings.claims@[state.next as int].token;
                match error_code(failure) {
                    None => stop(
                        Transaction { refused: None, ..state },
                        GitTransactionError::Apply {
                            request_id: token.request_id,
                            source: failure,
                        },
                    ),
                    Some(error_code) => next_claim(
                        settings,
                        Transaction {
                            next: (state.next + 1) as usize,
                            failures: state.failures.push(RequestFailure { token, error_code }),
                            refused: None,
                            ..state
                        },
                        base,
                        tree,
                    ),
                }
            },
        },
        (Phase::Emptying { base }, Reply::Done) => go(
            state,
            Phase::EmptyWorktree { base },
            Action::RemoveWorktree,
        ),
        (Phase::EmptyWorktree { base }, Reply::Done) => go(
            state,
            Phase::EmptyOfficial { base },
            Action::ResolveOfficial,
        ),
        (Phase::EmptyOfficial { base }, Reply::Object(actual)) => unless_changed(
            state,
            base,
            actual,
            go(state, Phase::EmptyStorage, Action::ValidateStorage),
        ),
        (Phase::EmptyStorage, Reply::Done) => conclude(
            state,
            Some(BatchCommitOutcome::NoChanges { failures: state.failures }),
        ),
        _ => stop(state, GitTransactionError::InvalidGitOutput),
    }
}

/// Why a built worktree is not the one that was prepared.
pub open spec fn build_problem(
    expected: ObjectId,
    unstaged: Seq<u8>,
    visible: Seq<u8>,
    ignored: Seq<u8>,
    tree: Seq<u8>,
) -> Option<GitFailure> {
    match untracked(visible, ignored) {
        None => Some(GitTransactionError::InvalidGitOutput),
        Some(paths) => if unstaged.len() > 0 || paths.len() > 0 {
            Some(GitTransactionError::TrialBuildMutatedWorktree)
        } else {
            match printed_object(tree) {
                None => Some(GitTransactionError::InvalidGitOutput),
                Some(actual) => if actual == expected {
                    None
                } else {
                    Some(GitTransactionError::TrialBuildMutatedWorktree)
                },
            }
        },
    }
}

/// A transaction whose publication begins.
pub open spec fn publish(state: TransactionView, base: ObjectId, commit: ObjectId) -> Step {
    go(state, Phase::PublishStorage { base, commit }, Action::ValidateStorage)
}

/// What follows once the commit of a journal was found to be the journaled one.
pub open spec fn confirmed(
    state: TransactionView,
    journal: JournalView,
    base: ObjectId,
    commit: ObjectId,
) -> Step {
    match (state.purpose, journal.state) {
        (Purpose::Recover, JournalState::Committed { publication_started: true, .. }) => publish(
            state,
            base,
            commit,
        ),
        (Purpose::Recover, _) => go(
            state,
            Phase::RecoverBase { base, commit },
            Action::ResolveOfficial,
        ),
        _ => go(
            state,
            Phase::Announcing { base, commit },
            Action::BeforePublish { base, commit },
        ),
    }
}

/// The state of a journal once publication has started.
pub open spec fn started(recorded: StateView) -> Option<StateView> {
    match recorded {
        JournalState::Committed { commit, successful, failures, .. } => Some(
            JournalState::Committed { commit, successful, failures, publication_started: true },
        ),
        _ => None,
    }
}

/// How a transaction builds, commits and journals what it prepared.
pub open spec fn committing(settings: BatchSettings, state: TransactionView, reply: Reply) -> Step {
    match (state.phase, reply) {
        (Phase::Counting { base, tree }, Reply::Output(output)) => match counted(
            output@,
            state.moves,
        ) {
            Err(failure) => stop(state, failure),
            Ok((added, modified)) => go(
                state,
                Phase::Building {
                    base,
                    tree,
                    stats: FileStats {
                        added: added as usize,
                        modified: modified as usize,
                        deleted: 0,
                    },
                },
                Action::TrialBuild,
            ),
        },
        (Phase::Building { base, tree, stats }, Reply::Done) => go(
            state,
            Phase::Inspecting { base, tree, stats },
            Action::InspectPrepared,
        ),
        (Phase::Building { base, tree, stats }, Reply::Rejected) => stop(
            state,
            GitTransactionError::TrialBuildFailed,
        ),
        (
            Phase::Inspecting { base, tree, stats },
            Reply::Prepared { unstaged, visible, ignored, tree: output },
        ) => match build_problem(tree, unstaged@, visible@, ignored@, output@) {
            Some(failure) => stop(state, failure),
            None => go(
                state,
                Phase::Committing { base },
                Action::CommitTree {
                    tree,
                    base,
                    message: unlines(
                        message_lines(
                            settings.batch_id,
                            settings.claims@,
                            state.successful,
                            stats,
                        ),
                    ),
                },
            ),
        },
        (Phase::Committing { base }, Reply::Object(commit)) => go(
            state,
            Phase::Referring { base, commit },
            Action::CreateTransactionRef { commit },
        ),
        (Phase::Referring { base, commit }, Reply::Done) => write_state(
            state,
            Phase::Recording { base, commit },
            JournalState::Committed {
                commit,
                successful: token_requests(state.successful),
                failures: journaled_failures(state.failures),
                publication_started: false,
            },
        ),
        (Phase::Recording { base, commit }, Reply::Done) => go(
            state,
            Phase::Confirming { base, commit },
            Action::InspectCommit { commit },
        ),
        (Phase::Confirming { base, commit }, Reply::Commit(facts)) => match state.journal {
            None => stop(state, GitTransactionError::JournalMissing),
            Some(journal) => match commit_problem(journal, facts) {
                Some(failure) => stop(state, failure),
                None => confirmed(state, journal, base, commit),
            },
        },
        (Phase::RecoverBase { base, commit }, Reply::Object(actual)) => unless_changed(
            state,
            base,
            actual,
            go(
                state,
                Phase::Announcing { base, commit },
                Action::BeforePublish { base, commit },
            ),
        ),
        (Phase::Announcing { base, commit }, Reply::Done) => match state.journal {
            None => stop(state, GitTransactionError::JournalMissing),
            Some(journal) => match started(journal.state) {
                None => stop(state, GitTransactionError::JournalState),
                Some(recorded) => write_state(state, Phase::Starting { base, commit }, recorded),
            },
        },
        (Phase::Announcing { base, commit }, Reply::Rejected) => stop(
            state,
            GitTransactionError::TrialBuildFailed,
        ),
        (Phase::Starting { base, commit }, Reply::Done) => publish(state, base, commit),
        _ => stop(state, GitTransactionError::InvalidGitOutput),
    }
}

/// What follows once an untracked file of the canonical worktree was compared.
pub open spec fn next_file(state: TransactionView, base: ObjectId, commit: ObjectId) -> Step {
    if state.compared < state.paths.len() {
        go(
            state,
            Phase::ResidueFile { base, commit },
            Action::InspectFile { base, path: state.paths[state.compared as int] },
        )
    } else {
        go(state, Phase::Syncing { commit }, Action::SyncCanonical { commit })
    }
}

/// Why an untracked file of the canonical worktree is not one that the base commit held.
pub open spec fn residue_problem(path: Seq<char>, record: Seq<u8>, object: Seq<u8>) -> Option<
    GitFailure,
> {
    match tree_object(record, components_of(path)) {
        Err(failure) => Some(failure),
        Ok(None) => Some(GitTransactionError::CanonicalWorktreeDirty),
        Ok(Some(expected)) => match printed_object(object) {
            None => Some(GitTransactionError::InvalidGitOutput),
            Some(actual) => if actual == expected {
                None
            } else {
                Some(GitTransactionError::CanonicalWorktreeDirty)
            },
        },
    }
}

/// A failure to clean up behind a published commit.
pub open spec fn cleanup_failure(commit: ObjectId, failure: GitFailure) -> GitFailure {
    GitTransactionError::PostCommitCleanup { commit, source: git_message(failure) }
}

/// How a transaction cleans up behind a published commit.
pub open spec fn cleaning(state: TransactionView, reply: Reply) -> Step {
    match (state.phase, reply) {
        (Phase::Syncing { commit }, Reply::Done) => go(
            state,
            Phase::CleaningWorktree { commit },
            Action::RemoveWorktree,
        ),
        (Phase::CleaningWorktree { commit }, Reply::Done) => go(
            state,
            Phase::CleaningRef { commit },
            Action::ResolveTransactionRef,
        ),
        (Phase::CleaningRef { commit }, Reply::Reference(None)) => go(
            state,
            Phase::CleanStorage { commit },
            Action::ValidateStorage,
        ),
        (Phase::CleaningRef { commit }, Reply::Reference(Some(actual))) => if actual != commit {
            stop(state, cleanup_failure(commit, GitTransactionError::JournalMismatch))
        } else {
            go(state, Phase::DeletingOld { commit }, Action::DeleteTransactionRef { commit })
        },
        (Phase::DeletingOld { commit }, Reply::Done) => go(
            state,
            Phase::CleanStorage { commit },
            Action::ValidateStorage,
        ),
        (Phase::CleanStorage { commit }, Reply::Done) => if state.purpose == Purpose::Recover {
            go(state, Phase::FinalStorage, Action::ValidateStorage)
        } else {
            conclude(
                state,
                Some(
                    BatchCommitOutcome::Committed {
                        commit,
                        successful: state.successful,
                        failures: state.failures,
                    },
                ),
            )
        },
        _ => stop(state, GitTransactionError::InvalidGitOutput),
    }
}

/// How a transaction advances the official branch.
pub open spec fn publishing(settings: BatchSettings, state: TransactionView, reply: Reply) -> Step {
    match (state.phase, reply) {
        (Phase::PublishStorage { base, commit }, Reply::Done) => go(
            state,
            Phase::Locking { base, commit },
            Action::LockCanonical,
        ),
        (Phase::Locking { base, commit }, Reply::Done) => go(
            state,
            Phase::PublishBase { base, commit },
            Action::ResolveOfficial,
        ),
        (Phase::PublishBase { base, commit }, Reply::Object(actual)) => if actual == base {
            go(state, Phase::PublishCanonical { base, commit }, Action::InspectCanonical)
        } else if actual == commit {
            go(state, Phase::Residue { base, commit }, Action::InspectResidue)
        } else {
            stop(state, GitTransactionError::OfficialBranchChanged { expected: base, actual })
        },
        (Phase::PublishCanonical { base, commit }, Reply::Output(status)) => if status@.len()
            > 0 {
            stop(state, GitTransactionError::CanonicalWorktreeDirty)
        } else {
            go(state, Phase::PublishRef { base, commit }, Action::ResolveTransactionRef)
        },
        (Phase::PublishRef { base, commit }, Reply::Reference(found)) => if found != Some(
            commit,
        ) {
            stop(state, GitTransactionError::JournalMismatch)
        } else {
            go(state, Phase::SwapStorage { base, commit }, Action::ValidateStorage)
        },
        (Phase::SwapStorage { base, commit }, Reply::Done) => go(
            state,
            Phase::Swapping { base, commit },
            Action::CompareAndSwap { base, commit },
        ),
        (Phase::Swapping { base, commit }, Reply::Done) => go(
            state,
            Phase::Syncing { commit },
            Action::SyncCanonical { commit },
        ),
        (
            Phase::Swapping { base, commit },
            Reply::SwapRefused { actual, arguments, stderr },
        ) => if actual != base {
            stop(state, GitTransactionError::OfficialBranchChanged { expected: base, actual })
        } else {
            stop(
                state,
                GitTransactionError::GitCommand { arguments: arguments@, stderr: stderr@ },
            )
        },
        (Phase::Residue { base, commit }, Reply::Untracked { visible, ignored }) =>
            match untracked(visible@, ignored@) {
                None => stop(state, GitTransactionError::InvalidGitOutput),
                Some(paths) => next_file(
                    Transaction { paths, compared: 0, ..state },
                    base,
                    commit,
                ),
            },
        (Phase::ResidueFile { base, commit }, Reply::File { record, object }) => if state.compared
            >= state.paths.len() {
            stop(state, GitTransactionError::InvalidGitOutput)
        } else {
            match residue_problem(state.paths[state.compared as int], record@, object@) {
                Some(failure) => stop(state, failure),
                None => next_file(
                    Transaction { compared: (state.compared + 1) as usize, ..state },
                    base,
                    commit,
                ),
            }
        },
        (Phase::FinalStorage, Reply::Done) => match state.journal {
            None => stop(state, GitTransactionError::JournalMissing),
            Some(journal) => match outcome_of(journal) {
                Err(failure) => stop(state, failure),
                Ok(outcome) => conclude(state, Some(outcome)),
            },
        },
        _ => cleaning(state, reply),
    }
}

/// A failed action ends the transaction. What fails behind a published commit is reported as such.
pub open spec fn failed(state: TransactionView, failure: GitFailure) -> Step {
    match state.phase {
        Phase::Syncing { commit } => stop(
            state,
            GitTransactionError::CanonicalWorktreeSync { commit, source: git_message(failure) },
        ),
        Phase::CleaningWorktree { commit } => stop(state, cleanup_failure(commit, failure)),
        Phase::CleaningRef { commit } => stop(state, cleanup_failure(commit, failure)),
        Phase::DeletingOld { commit } => stop(state, cleanup_failure(commit, failure)),
        _ => stop(state, failure),
    }
}

/// The group of phases that a phase belongs to.
pub open spec fn stage(phase: Phase) -> int {
    match phase {
        Phase::Readying | Phase::Listing | Phase::Reading | Phase::Identifying => 0,
        Phase::ComparingBase { .. } | Phase::Rechecking { .. } | Phase::AbortClaims
        | Phase::ConfirmingBase { .. } | Phase::DiscardingWorktree { .. }
        | Phase::DiscardingRef { .. } | Phase::InspectingRef { .. } | Phase::ResolvingRef { .. }
        | Phase::DeletingRef | Phase::DiscardingJournal | Phase::AbortStorage => 1,
        Phase::CheckingClaims | Phase::CheckingCanonical | Phase::Pinning
        | Phase::CheckingWorktree { .. } | Phase::Naming { .. } | Phase::Preparing { .. }
        | Phase::Adding { .. } | Phase::Rooting { .. } => 2,
        Phase::Applying { .. } | Phase::Staging { .. } | Phase::Resetting { .. }
        | Phase::Emptying { .. } | Phase::EmptyWorktree { .. } | Phase::EmptyOfficial { .. }
        | Phase::EmptyStorage => 3,
        Phase::Counting { .. } | Phase::Building { .. } | Phase::Inspecting { .. }
        | Phase::Committing { .. } | Phase::Referring { .. } | Phase::Recording { .. }
        | Phase::Confirming { .. } | Phase::RecoverBase { .. } | Phase::Announcing { .. }
        | Phase::Starting { .. } => 4,
        _ => 5,
    }
}

/// How a transaction goes on after a reply.
pub open spec fn stepped(settings: BatchSettings, state: TransactionView, reply: Reply) -> Step {
    if let Reply::Failed(error) = reply {
        failed(state, error@)
    } else if stage(state.phase) == 0 {
        discovering(settings, state, reply)
    } else if stage(state.phase) == 1 {
        discarding(settings, state, reply)
    } else if stage(state.phase) == 2 {
        preparing(settings, state, reply)
    } else if stage(state.phase) == 3 {
        applying(settings, state, reply)
    } else if stage(state.phase) == 4 {
        committing(settings, state, reply)
    } else {
        publishing(settings, state, reply)
    }
}

/// A transaction before anything happened.
pub open spec fn fresh(purpose: Purpose) -> TransactionView {
    Transaction {
        purpose,
        phase: Phase::Finished,
        journal: None,
        next: 0,
        successful: Seq::empty(),
        failures: Seq::empty(),
        moves: Seq::empty(),
        staged: Seq::empty(),
        refused: None,
        paths: Seq::empty(),
        compared: 0,
    }
}

/// How a transaction begins.
pub open spec fn begun(settings: BatchSettings, purpose: Purpose) -> Step {
    match purpose {
        Purpose::Apply => if settings.claims@.len() == 0 {
            stop(fresh(purpose), GitTransactionError::EmptyBatch)
        } else {
            go(fresh(purpose), Phase::Listing, Action::ListJournals)
        },
        Purpose::Recover => go(fresh(purpose), Phase::Readying, Action::EnsureReady),
        Purpose::Abort => go(fresh(purpose), Phase::Listing, Action::ListJournals),
    }
}

/// Copies a list.
fn copy_all<T: Copy>(items: &Vec<T>) -> (copy: Vec<T>)
    ensures
        copy@ == items@,
{
    let mut copy: Vec<T> = Vec::new();
    let mut i: usize = 0;
    while i < items.len()
        invariant
            i <= items@.len(),
            copy@ == items@.take(i as int),
        decreases items@.len() - i,
    {
        copy.push(items[i]);
        assert(copy@ =~= items@.take(i + 1));
        i += 1;
    }
    assert(items@.take(items@.len() as int) =~= items@);
    copy
}

/// Copies a journal with another state.
fn journal_with(journal: &TransactionJournal, state: JournalState) -> (result: TransactionJournal)
    ensures
        result@ == (TransactionJournal { state: state@, ..journal@ }),
{
    TransactionJournal {
        batch_id: journal.batch_id,
        queue_identity: journal.queue_identity,
        base_commit: journal.base_commit,
        claims: copy_all(&journal.claims),
        claim_failures: journal.claim_failures,
        state,
    }
}

/// Copies the state of a journal.
fn copy_state(state: &JournalState) -> (copy: JournalState)
    ensures
        copy@ == state@,
{
    match state {
        JournalState::Preparing => JournalState::Preparing,
        JournalState::NoChanges { failures } => JournalState::NoChanges {
            failures: copy_all(failures),
        },
        JournalState::Committed { commit, successful, failures, publication_started } =>
            JournalState::Committed {
                commit: *commit,
                successful: copy_all(successful),
                failures: copy_all(failures),
                publication_started: *publication_started,
            },
    }
}

/// The journaled form of request failures.
fn journal_failures(failures: &Vec<RequestFailure>) -> (result: Vec<JournalFailure>)
    ensures
        result@ == journaled_failures(failures@),
{
    let mut result: Vec<JournalFailure> = Vec::new();
    let mut i: usize = 0;
    while i < failures.len()
        invariant
            i <= failures@.len(),
            result@ == journaled_failures(failures@.take(i as int)),
        decreases failures@.len() - i,
    {
        result.push(
            JournalFailure {
                request_id: failures[i].token.request_id,
                error_code: failures[i].error_code,
            },
        );
        assert(result@ =~= journaled_failures(failures@.take(i + 1)));
        i += 1;
    }
    assert(failures@.take(failures@.len() as int) =~= failures@);
    result
}

/// The requests of a list of tokens.
fn requests_of(tokens: &Vec<ClaimToken>) -> (result: Vec<RequestId>)
    ensures
        result@ == token_requests(tokens@),
{
    let mut result: Vec<RequestId> = Vec::new();
    let mut i: usize = 0;
    while i < tokens.len()
        invariant
            i <= tokens@.len(),
            result@ == token_requests(tokens@.take(i as int)),
        decreases tokens@.len() - i,
    {
        result.push(tokens[i].request_id);
        assert(result@ =~= token_requests(tokens@.take(i + 1)));
        i += 1;
    }
    assert(tokens@.take(tokens@.len() as int) =~= tokens@);
    result
}

/// Adds moves behind others.
fn add_moves(moves: &mut Vec<AppliedFileMove>, more: Vec<AppliedFileMove>)
    ensures
        move_views(final(moves)@) == move_views(old(moves)@) + move_views(more@),
{
    let mut more = more;
    let ghost first = moves@;
    let ghost second = more@;
    moves.append(&mut more);
    assert(move_views(moves@) =~= move_views(first) + move_views(second));
}

/// Why the claims of a batch are not those that the queue owns and a journal records.
fn check_ownership(
    settings: &BatchSettings,
    ownership: &Vec<Option<String>>,
    journal: &Option<TransactionJournal>,
    count_failures: bool,
) -> (result: Option<GitTransactionError>)
    ensures
        (match result {
            Some(error) => Some(error@),
            None => None,
        }) == ownership_problem(
            *settings,
            ownership@,
            match *journal {
                Some(journal) => Some(journal@),
                None => None,
            },
            count_failures,
        ),
{
    if ownership.len() != settings.claims.len() {
        return Some(GitTransactionError::InvalidClaims);
    }
    match validate_batch_claims(settings.batch_id, &settings.claims, ownership) {
        Err(error) => {
            return Some(error);
        },
        Ok(()) => {},
    }
    match journal {
        None => None,
        Some(journal) => if !validate_journal_claims(journal, &settings.claims) || (count_failures
            && journal.claim_failures != settings.claim_failures) {
            Some(GitTransactionError::JournalMismatch)
        } else {
            None
        },
    }
}

/// Why a commit is not that of an earlier attempt of the batch.
fn check_preparing(
    batch_id: BatchId,
    base: ObjectId,
    commit: ObjectId,
    parents: &Vec<u8>,
    trailer: &Vec<u8>,
) -> (result: Option<GitTransactionError>)
    ensures
        (match result {
            Some(error) => Some(error@),
            None => None,
        }) == preparing_problem(batch_id, base, commit, parents@, trailer@),
{
    match has_only_parent(parents.as_slice(), commit, base) {
        Err(error) => Some(error),
        Ok(false) => Some(GitTransactionError::JournalMismatch),
        Ok(true) => match printed_is(trailer.as_slice(), batch_id.text().as_str()) {
            None => Some(GitTransactionError::InvalidGitOutput),
            Some(true) => None,
            Some(false) => Some(GitTransactionError::JournalMismatch),
        },
    }
}

/// Why a built worktree is not the one that was prepared.
fn check_build(
    expected: ObjectId,
    unstaged: &Vec<u8>,
    visible: &Vec<u8>,
    ignored: &Vec<u8>,
    tree: &Vec<u8>,
) -> (result: Option<GitTransactionError>)
    ensures
        (match result {
            Some(error) => Some(error@),
            None => None,
        }) == build_problem(expected, unstaged@, visible@, ignored@, tree@),
{
    match untracked_files(visible.as_slice(), ignored.as_slice()) {
        None => Some(GitTransactionError::InvalidGitOutput),
        Some(paths) => if unstaged.len() > 0 || paths.len() > 0 {
            assert(texts(paths@).len() == paths@.len());
            Some(GitTransactionError::TrialBuildMutatedWorktree)
        } else {
            match parse_object_id(tree.as_slice()) {
                None => Some(GitTransactionError::InvalidGitOutput),
                Some(actual) => if actual == expected {
                    None
                } else {
                    Some(GitTransactionError::TrialBuildMutatedWorktree)
                },
            }
        },
    }
}

/// Why an untracked file of the canonical worktree is not one that the base commit held.
fn check_residue(path: &String, record: &Vec<u8>, object: &Vec<u8>) -> (result: Option<
    GitTransactionError,
>)
    ensures
        (match result {
            Some(error) => Some(error@),
            None => None,
        }) == residue_problem(path@, record@, object@),
{
    match resolve_tree_path(record.as_slice(), &path_from_text(path.as_str())) {
        Err(error) => Some(error),
        Ok(None) => Some(GitTransactionError::CanonicalWorktreeDirty),
        Ok(Some(expected)) => match parse_object_id(object.as_slice()) {
            None => Some(GitTransactionError::InvalidGitOutput),
            Some(actual) => if actual == expected {
                None
            } else {
                Some(GitTransactionError::CanonicalWorktreeDirty)
            },
        },
    }
}

/// A failure to clean up behind a published commit.
fn cleanup_error(commit: ObjectId, error: GitTransactionError) -> (result: GitTransactionError)
    ensures
        result@ == cleanup_failure(commit, error@),
{
    GitTransactionError::PostCommitCleanup { commit, source: error.message() }
}

impl Transaction {
    /// Waits in a phase for an action.
    fn go(self, phase: Phase, action: Action) -> (result: (Transaction, Action))
        ensures
            (result.0@, result.1@) == go(self@, phase, action@),
    {
        let mut next = self;
        next.phase = phase;
        (next, action)
    }

    /// Ends with a failure.
    fn stop(self, error: GitTransactionError) -> (result: (Transaction, Action))
        ensures
            (result.0@, result.1@) == stop(self@, error@),
    {
        self.go(Phase::Finished, Action::Finish(Err(error)))
    }

    /// Ends as it should.
    fn conclude(self, outcome: Option<BatchCommitOutcome>) -> (result: (Transaction, Action))
        ensures
            (result.0@, result.1@) == conclude(
                self@,
                match outcome {
                    Some(outcome) => Some(outcome@),
                    None => None,
                },
            ),
    {
        self.go(Phase::Finished, Action::Finish(Ok(outcome)))
    }

    /// Writes a journal.
    fn write(self, phase: Phase, journal: TransactionJournal) -> (result: (Transaction, Action))
        ensures
            (result.0@, result.1@) == write(self@, phase, journal@),
    {
        let written = journal_with(&journal, copy_state(&journal.state));
        let mut next = self;
        next.journal = Some(journal);
        next.go(phase, Action::WriteJournal(written))
    }

    /// Writes its journal with another state.
    fn write_state(self, phase: Phase, state: JournalState) -> (result: (Transaction, Action))
        ensures
            (result.0@, result.1@) == write_state(self@, phase, state@),
    {
        match &self.journal {
            None => self.stop(GitTransactionError::JournalMissing),
            Some(journal) => {
                let journal = journal_with(journal, state);
                self.write(phase, journal)
            },
        }
    }

    /// Goes on once the queue of a journal is known to be the right one.
    fn identified(self, settings: &BatchSettings) -> (result: (Transaction, Action))
        requires
            self.journal is Some,
        ensures
            (result.0@, result.1@) == identified(*settings, self@, self@.journal->0),
    {
        match &self.journal {
            None => self.stop(GitTransactionError::JournalMissing),
            Some(journal) => {
                let base = journal.base_commit;
                match (self.purpose, &journal.state) {
                    (Purpose::Apply, JournalState::Preparing) => self.go(
                        Phase::ComparingBase { base },
                        Action::ResolveOfficial,
                    ),
                    (Purpose::Apply, _) => self.stop(
                        GitTransactionError::TransactionRequiresRecovery {
                            batch_id: settings.batch_id,
                        },
                    ),
                    (Purpose::Abort, JournalState::Preparing) => self.go(
                        Phase::AbortClaims,
                        Action::InspectClaims,
                    ),
                    (Purpose::Recover, JournalState::NoChanges { .. }) => self.go(
                        Phase::ConfirmingBase { base },
                        Action::ResolveOfficial,
                    ),
                    (Purpose::Recover, JournalState::Committed { commit, .. }) => {
                        let commit = *commit;
                        self.go(
                            Phase::Confirming { base, commit },
                            Action::InspectCommit { commit },
                        )
                    },
                    _ => self.stop(GitTransactionError::JournalState),
                }
            },
        }
    }

    /// Finds out where the batch stands.
    fn discover(self, settings: &BatchSettings, reply: Reply) -> (result: (Transaction, Action))
        ensures
            (result.0@, result.1@) == discovering(*settings, self@, reply),
    {
        match (self.phase, reply) {
            (Phase::Readying, Reply::Done) => self.go(Phase::Listing, Action::ListJournals),
            (Phase::Listing, Reply::Names(names)) => if no_other_journal(
                &names,
                settings.batch_id,
            ) {
                self.go(Phase::Reading, Action::ReadJournal)
            } else {
                self.stop(GitTransactionError::UnfinishedTransaction)
            },
            (Phase::Reading, Reply::Journal(None)) => if self.purpose == Purpose::Apply {
                self.go(Phase::CheckingClaims, Action::InspectClaims)
            } else {
                self.stop(GitTransactionError::JournalMissing)
            },
            (Phase::Reading, Reply::Journal(Some(stored))) => match decode_journal(
                stored,
                settings.batch_id,
            ) {
                Err(error) => self.stop(error),
                Ok(journal) => {
                    let mut next = self;
                    next.journal = Some(journal);
                    next.go(Phase::Identifying, Action::IdentifyQueue)
                },
            },
            (Phase::Identifying, Reply::Identity(identity)) => match &self.journal {
                None => self.stop(GitTransactionError::JournalMissing),
                Some(journal) => if journal.queue_identity != identity {
                    self.stop(GitTransactionError::JournalMismatch)
                } else {
                    self.identified(settings)
                },
            },
            _ => self.stop(GitTransactionError::InvalidGitOutput),
        }
    }

    /// Goes on once the reference of an earlier attempt is gone.
    fn discarded(self) -> (result: (Transaction, Action))
        ensures
            (result.0@, result.1@) == discarded(self@),
    {
        if self.purpose == Purpose::Recover {
            self.go(Phase::FinalStorage, Action::ValidateStorage)
        } else {
            self.go(Phase::DiscardingJournal, Action::RemoveJournal)
        }
    }

    /// Discards what an earlier attempt left.
    fn discard(self, settings: &BatchSettings, reply: Reply) -> (result: (Transaction, Action))
        ensures
            (result.0@, result.1@) == discarding(*settings, self@, reply),
    {
        match (self.phase, reply) {
            (Phase::ComparingBase { base }, Reply::Object(actual)) => if actual != base {
                self.stop(GitTransactionError::OfficialBranchChanged { expected: base, actual })
            } else {
                self.go(Phase::Rechecking { base }, Action::InspectClaims)
            },
            (Phase::Rechecking { base }, Reply::Ownership(ownership)) => match check_ownership(
                settings,
                &ownership,
                &self.journal,
                true,
            ) {
                Some(error) => self.stop(error),
                None => self.go(Phase::DiscardingWorktree { base }, Action::RemoveWorktree),
            },
            (Phase::AbortClaims, Reply::Ownership(ownership)) => match check_ownership(
                settings,
                &ownership,
                &self.journal,
                false,
            ) {
                Some(error) => self.stop(error),
                None => match &self.journal {
                    None => self.stop(GitTransactionError::JournalMissing),
                    Some(journal) => {
                        let base = journal.base_commit;
                        self.go(Phase::ConfirmingBase { base }, Action::ResolveOfficial)
                    },
                },
            },
            (Phase::ConfirmingBase { base }, Reply::Object(actual)) => if actual != base {
                self.stop(GitTransactionError::OfficialBranchChanged { expected: base, actual })
            } else {
                self.go(Phase::DiscardingWorktree { base }, Action::RemoveWorktree)
            },
            (Phase::DiscardingWorktree { base }, Reply::Done) => self.go(
                Phase::DiscardingRef { base },
                Action::ResolveTransactionRef,
            ),
            (Phase::DiscardingRef { base }, Reply::Reference(None)) => self.discarded(),
            (Phase::DiscardingRef { base }, Reply::Reference(Some(commit))) => self.go(
                Phase::InspectingRef { base, commit },
                Action::InspectPreparing { commit },
            ),
            (Phase::InspectingRef { base, commit }, Reply::Trailers { parents, trailer }) =>
                match check_preparing(settings.batch_id, base, commit, &parents, &trailer) {
                    Some(error) => self.stop(error),
                    None => self.go(
                        Phase::ResolvingRef { commit },
                        Action::ResolveTransactionRef,
                    ),
                },
            (Phase::ResolvingRef { commit }, Reply::Reference(None)) => self.discarded(),
            (Phase::ResolvingRef { commit }, Reply::Reference(Some(actual))) => if actual
                != commit {
                self.stop(GitTransactionError::JournalMismatch)
            } else {
                self.go(Phase::DeletingRef, Action::DeleteTransactionRef { commit })
            },
            (Phase::DeletingRef, Reply::Done) => self.discarded(),
            (Phase::DiscardingJournal, Reply::Done) => {
                let mut next = self;
                next.journal = None;
                if next.purpose == Purpose::Apply {
                    next.go(Phase::CheckingClaims, Action::InspectClaims)
                } else {
                    next.go(Phase::AbortStorage, Action::ValidateStorage)
                }
            },
            (Phase::AbortStorage, Reply::Done) => self.conclude(None),
            _ => self.stop(GitTransactionError::InvalidGitOutput),
        }
    }

    /// Goes on once a claim is decided, on top of a tree.
    fn next_claim(self, settings: &BatchSettings, base: ObjectId, tree: ObjectId) -> (result: (
        Transaction,
        Action,
    ))
        ensures
            (result.0@, result.1@) == next_claim(*settings, self@, base, tree),
    {
        if self.next < settings.claims.len() {
            let index: usize = self.next;
            self.go(Phase::Applying { base, tree }, Action::ApplyClaim { index })
        } else if self.successful.len() == 0 {
            let failures = journal_failures(&self.failures);
            self.write_state(Phase::Emptying { base }, JournalState::NoChanges { failures })
        } else if reduce_moves(&self.moves).is_none() {
            self.stop(GitTransactionError::InvalidGitOutput)
        } else {
            self.go(Phase::Counting { base, tree }, Action::ReadDifference { base })
        }
    }

    /// Prepares a worktree.
    fn prepare(self, settings: &BatchSettings, reply: Reply) -> (result: (Transaction, Action))
        ensures
            (result.0@, result.1@) == preparing(*settings, self@, reply),
    {
        match (self.phase, reply) {
            (Phase::CheckingClaims, Reply::Ownership(ownership)) => match check_ownership(
                settings,
                &ownership,
                &None,
                false,
            ) {
                Some(error) => self.stop(error),
                None => self.go(Phase::CheckingCanonical, Action::InspectCanonical),
            },
            (Phase::CheckingCanonical, Reply::Output(status)) => if status.len() > 0 {
                self.stop(GitTransactionError::CanonicalWorktreeDirty)
            } else {
                self.go(Phase::Pinning, Action::ResolveOfficial)
            },
            (Phase::Pinning, Reply::Object(base)) => self.go(
                Phase::CheckingWorktree { base },
                Action::InspectWorktree,
            ),
            (Phase::CheckingWorktree { base }, Reply::Exists(found)) => if found {
                self.stop(GitTransactionError::WorktreeAlreadyExists(settings.worktree.clone()))
            } else {
                self.go(Phase::Naming { base }, Action::IdentifyQueue)
            },
            (Phase::Naming { base }, Reply::Identity(identity)) => self.write(
                Phase::Preparing { base },
                TransactionJournal {
                    batch_id: settings.batch_id,
                    queue_identity: identity,
                    base_commit: base,
                    claims: journal_claims(&settings.claims),
                    claim_failures: settings.claim_failures,
                    state: JournalState::Preparing,
                },
            ),
            (Phase::Preparing { base }, Reply::Done) => self.go(
                Phase::Adding { base },
                Action::AddWorktree { base },
            ),
            (Phase::Adding { base }, Reply::Done) => self.go(
                Phase::Rooting { base },
                Action::ResolveTree,
            ),
            (Phase::Rooting { base }, Reply::Object(tree)) => self.next_claim(
                settings,
                base,
                tree,
            ),
            _ => self.stop(GitTransactionError::InvalidGitOutput),
        }
    }

    /// Records an applied claim.
    fn staged(self, settings: &BatchSettings, base: ObjectId, tree: ObjectId) -> (result: (
        Transaction,
        Action,
    ))
        requires
            self.next < settings.claims@.len(),
        ensures
            (result.0@, result.1@) == next_claim(
                *settings,
                Transaction {
                    next: (self.next + 1) as usize,
                    successful: self.successful@.push(settings.claims@[self.next as int].token),
                    moves: self@.moves + self@.staged,
                    staged: Seq::empty(),
                    ..self@
                },
                base,
                tree,
            ),
    {
        let count: usize = settings.claims.len();
        assert(self.next < count);
        let token = settings.claims[self.next].token;
        let Transaction {
            purpose,
            phase,
            journal,
            next,
            successful,
            failures,
            moves,
            staged,
            refused,
            paths,
            compared,
        } = self;
        let mut successful = successful;
        successful.push(token);
        let mut moves = moves;
        add_moves(&mut moves, staged);
        let none: Vec<AppliedFileMove> = Vec::new();
        assert(move_views(none@) =~= Seq::<AppliedFileMove<PathView>>::empty());
        let advanced = Transaction {
            purpose,
            phase,
            journal,
            next: next + 1,
            successful,
            failures,
            moves,
            staged: none,
            refused,
            paths,
            compared,
        };
        advanced.next_claim(settings, base, tree)
    }

    /// Records a refused claim.
    fn reset(self, settings: &BatchSettings, base: ObjectId, tree: ObjectId) -> (result: (
        Transaction,
        Action,
    ))
        requires
            self.phase == (Phase::Resetting { base, tree }),
        ensures
            (result.0@, result.1@) == applying(*settings, self@, Reply::Done),
    {
        let mut state = self;
        if state.next >= settings.claims.len() {
            return state.stop(GitTransactionError::InvalidClaims);
        }
        let token = settings.claims[state.next].token;
        match state.refused.take() {
            None => {
                assert(state@ == self@);
                state.stop(GitTransactionError::InvalidClaims)
            },
            Some(error) => match error.request_error_code() {
                None => state.stop(
                    GitTransactionError::Apply { request_id: token.request_id, source: error },
                ),
                Some(error_code) => {
                    state.next = state.next + 1;
                    state.failures.push(RequestFailure { token, error_code });
                    state.next_claim(settings, base, tree)
                },
            },
        }
    }

    /// Applies claims.
    fn apply(self, settings: &BatchSettings, reply: Reply) -> (result: (Transaction, Action))
        ensures
            (result.0@, result.1@) == applying(*settings, self@, reply),
    {
        match (self.phase, reply) {
            (Phase::Applying { base, tree }, Reply::Applied(moves)) => {
                let mut state = self;
                state.staged = moves;
                state.go(Phase::Staging { base }, Action::StageTree)
            },
            (Phase::Applying { base, tree }, Reply::Refused(error)) => {
                let mut state = self;
                state.refused = Some(error);
                state.go(Phase::Resetting { base, tree }, Action::ResetWorktree { tree })
            },
            (Phase::Staging { base }, Reply::Object(tree)) => if self.next
                >= settings.claims.len() {
                self.stop(GitTransactionError::InvalidClaims)
            } else {
                self.staged(settings, base, tree)
            },
            (Phase::Resetting { base, tree }, Reply::Done) => self.reset(settings, base, tree),
            (Phase::Emptying { base }, Reply::Done) => self.go(
                Phase::EmptyWorktree { base },
                Action::RemoveWorktree,
            ),
            (Phase::EmptyWorktree { base }, Reply::Done) => self.go(
                Phase::EmptyOfficial { base },
                Action::ResolveOfficial,
            ),
            (Phase::EmptyOfficial { base }, Reply::Object(actual)) => if actual != base {
                self.stop(GitTransactionError::OfficialBranchChanged { expected: base, actual })
            } else {
                self.go(Phase::EmptyStorage, Action::ValidateStorage)
            },
            (Phase::EmptyStorage, Reply::Done) => {
                let failures = copy_all(&self.failures);
                self.conclude(Some(BatchCommitOutcome::NoChanges { failures }))
            },
            _ => self.stop(GitTransactionError::InvalidGitOutput),
        }
    }

    /// Goes on once the commit of a journal was found to be the journaled one.
    fn confirmed(self, facts: &CommitFacts, base: ObjectId, commit: ObjectId) -> (result: (
        Transaction,
        Action,
    ))
        ensures
            (result.0@, result.1@) == (match self@.journal {
                None => stop(self@, GitTransactionError::JournalMissing),
                Some(journal) => match commit_problem(journal, *facts) {
                    Some(failure) => stop(self@, failure),
                    None => confirmed(self@, journal, base, commit),
                },
            }),
    {
        match &self.journal {
            None => self.stop(GitTransactionError::JournalMissing),
            Some(journal) => match validate_committed_journal(journal, facts) {
                Err(error) => self.stop(error),
                Ok(()) => match (self.purpose, &journal.state) {
                    (
                        Purpose::Recover,
                        JournalState::Committed { publication_started: true, .. },
                    ) => self.go(Phase::PublishStorage { base, commit }, Action::ValidateStorage),
                    (Purpose::Recover, _) => self.go(
                        Phase::RecoverBase { base, commit },
                        Action::ResolveOfficial,
                    ),
                    _ => self.go(
                        Phase::Announcing { base, commit },
                        Action::BeforePublish { base, commit },
                    ),
                },
            },
        }
    }

    /// Journals the start of the publication.
    fn start(self, base: ObjectId, commit: ObjectId) -> (result: (Transaction, Action))
        ensures
            (result.0@, result.1@) == (match self@.journal {
                None => stop(self@, GitTransactionError::JournalMissing),
                Some(journal) => match started(journal.state) {
                    None => stop(self@, GitTransactionError::JournalState),
                    Some(recorded) => write_state(
                        self@,
                        Phase::Starting { base, commit },
                        recorded,
                    ),
                },
            }),
    {
        let recorded = match &self.journal {
            None => {
                return self.stop(GitTransactionError::JournalMissing);
            },
            Some(journal) => match &journal.state {
                JournalState::Committed { commit, successful, failures, .. } =>
                    JournalState::Committed {
                        commit: *commit,
                        successful: copy_all(successful),
                        failures: copy_all(failures),
                        publication_started: true,
                    },
                _ => {
                    return self.stop(GitTransactionError::JournalState);
                },
            },
        };
        self.write_state(Phase::Starting { base, commit }, recorded)
    }

    /// Builds, commits and journals what was prepared.
    fn commit(self, settings: &BatchSettings, reply: Reply) -> (result: (Transaction, Action))
        ensures
            (result.0@, result.1@) == committing(*settings, self@, reply),
    {
        match (self.phase, reply) {
            (Phase::Counting { base, tree }, Reply::Output(output)) => match staged_stats(
                output.as_slice(),
                &self.moves,
            ) {
                Err(error) => self.stop(error),
                Ok(stats) => self.go(Phase::Building { base, tree, stats }, Action::TrialBuild),
            },
            (Phase::Building { base, tree, stats }, Reply::Done) => self.go(
                Phase::Inspecting { base, tree, stats },
                Action::InspectPrepared,
            ),
            (Phase::Building { base, tree, stats }, Reply::Rejected) => self.stop(
                GitTransactionError::TrialBuildFailed,
            ),
            (
                Phase::Inspecting { base, tree, stats },
                Reply::Prepared { unstaged, visible, ignored, tree: output },
            ) => match check_build(tree, &unstaged, &visible, &ignored, &output) {
                Some(error) => self.stop(error),
                None => {
                    let message = commit_message(
                        settings.batch_id,
                        &settings.claims,
                        &self.successful,
                        stats,
                    );
                    self.go(
                        Phase::Committing { base },
                        Action::CommitTree { tree, base, message },
                    )
                },
            },
            (Phase::Committing { base }, Reply::Object(commit)) => self.go(
                Phase::Referring { base, commit },
                Action::CreateTransactionRef { commit },
            ),
            (Phase::Referring { base, commit }, Reply::Done) => {
                let recorded = JournalState::Committed {
                    commit,
                    successful: requests_of(&self.successful),
                    failures: journal_failures(&self.failures),
                    publication_started: false,
                };
                self.write_state(Phase::Recording { base, commit }, recorded)
            },
            (Phase::Recording { base, commit }, Reply::Done) => self.go(
                Phase::Confirming { base, commit },
                Action::InspectCommit { commit },
            ),
            (Phase::Confirming { base, commit }, Reply::Commit(facts)) => self.confirmed(
                &facts,
                base,
                commit,
            ),
            (Phase::RecoverBase { base, commit }, Reply::Object(actual)) => if actual != base {
                self.stop(GitTransactionError::OfficialBranchChanged { expected: base, actual })
            } else {
                self.go(
                    Phase::Announcing { base, commit },
                    Action::BeforePublish { base, commit },
                )
            },
            (Phase::Announcing { base, commit }, Reply::Done) => self.start(base, commit),
            (Phase::Announcing { base, commit }, Reply::Rejected) => self.stop(
                GitTransactionError::TrialBuildFailed,
            ),
            (Phase::Starting { base, commit }, Reply::Done) => self.go(
                Phase::PublishStorage { base, commit },
                Action::ValidateStorage,
            ),
            _ => self.stop(GitTransactionError::InvalidGitOutput),
        }
    }

    /// Goes on once an untracked file of the canonical worktree was compared.
    fn next_file(self, base: ObjectId, commit: ObjectId) -> (result: (Transaction, Action))
        ensures
            (result.0@, result.1@) == next_file(self@, base, commit),
    {
        assert(self@.paths.len() == self.paths@.len());
        if self.compared < self.paths.len() {
            let path = self.paths[self.compared].clone();
            self.go(Phase::ResidueFile { base, commit }, Action::InspectFile { base, path })
        } else {
            self.go(Phase::Syncing { commit }, Action::SyncCanonical { commit })
        }
    }

    /// Advances the official branch.
    fn publish(self, settings: &BatchSettings, reply: Reply) -> (result: (Transaction, Action))
        ensures
            (result.0@, result.1@) == publishing(*settings, self@, reply),
    {
        match (self.phase, reply) {
            (Phase::PublishStorage { base, commit }, Reply::Done) => self.go(
                Phase::Locking { base, commit },
                Action::LockCanonical,
            ),
            (Phase::Locking { base, commit }, Reply::Done) => self.go(
                Phase::PublishBase { base, commit },
                Action::ResolveOfficial,
            ),
            (Phase::PublishBase { base, commit }, Reply::Object(actual)) => if actual == base {
                self.go(Phase::PublishCanonical { base, commit }, Action::InspectCanonical)
            } else if actual == commit {
                self.go(Phase::Residue { base, commit }, Action::InspectResidue)
            } else {
                self.stop(GitTransactionError::OfficialBranchChanged { expected: base, actual })
            },
            (Phase::PublishCanonical { base, commit }, Reply::Output(status)) => if status.len()
                > 0 {
                self.stop(GitTransactionError::CanonicalWorktreeDirty)
            } else {
                self.go(Phase::PublishRef { base, commit }, Action::ResolveTransactionRef)
            },
            (Phase::PublishRef { base, commit }, Reply::Reference(found)) => match found {
                Some(actual) => if actual != commit {
                    self.stop(GitTransactionError::JournalMismatch)
                } else {
                    self.go(Phase::SwapStorage { base, commit }, Action::ValidateStorage)
                },
                None => self.stop(GitTransactionError::JournalMismatch),
            },
            (Phase::SwapStorage { base, commit }, Reply::Done) => self.go(
                Phase::Swapping { base, commit },
                Action::CompareAndSwap { base, commit },
            ),
            (Phase::Swapping { base, commit }, Reply::Done) => self.go(
                Phase::Syncing { commit },
                Action::SyncCanonical { commit },
            ),
            (
                Phase::Swapping { base, commit },
                Reply::SwapRefused { actual, arguments, stderr },
            ) => if actual != base {
                self.stop(GitTransactionError::OfficialBranchChanged { expected: base, actual })
            } else {
                self.stop(GitTransactionError::GitCommand { arguments, stderr })
            },
            (Phase::Residue { base, commit }, Reply::Untracked { visible, ignored }) =>
                match untracked_files(visible.as_slice(), ignored.as_slice()) {
                    None => self.stop(GitTransactionError::InvalidGitOutput),
                    Some(paths) => {
                        let mut state = self;
                        state.paths = paths;
                        state.compared = 0;
                        state.next_file(base, commit)
                    },
                },
            (Phase::ResidueFile { base, commit }, Reply::File { record, object }) => {
                assert(self@.paths.len() == self.paths@.len());
                if self.compared >= self.paths.len() {
                    return self.stop(GitTransactionError::InvalidGitOutput);
                }
                assert(self@.paths[self.compared as int] == self.paths@[self.compared as int]@);
                match check_residue(&self.paths[self.compared], &record, &object) {
                    Some(error) => self.stop(error),
                    None => {
                        let mut state = self;
                        state.compared = state.compared + 1;
                        state.next_file(base, commit)
                    },
                }
            },
            (Phase::FinalStorage, Reply::Done) => match &self.journal {
                None => self.stop(GitTransactionError::JournalMissing),
                Some(journal) => match outcome_from_journal(journal) {
                    Err(error) => self.stop(error),
                    Ok(outcome) => self.conclude(Some(outcome)),
                },
            },
            (phase, reply) => self.clean(reply),
        }
    }

    /// Cleans up behind a published commit.
    fn clean(self, reply: Reply) -> (result: (Transaction, Action))
        ensures
            (result.0@, result.1@) == cleaning(self@, reply),
    {
        match (self.phase, reply) {
            (Phase::Syncing { commit }, Reply::Done) => self.go(
                Phase::CleaningWorktree { commit },
                Action::RemoveWorktree,
            ),
            (Phase::CleaningWorktree { commit }, Reply::Done) => self.go(
                Phase::CleaningRef { commit },
                Action::ResolveTransactionRef,
            ),
            (Phase::CleaningRef { commit }, Reply::Reference(None)) => self.go(
                Phase::CleanStorage { commit },
                Action::ValidateStorage,
            ),
            (Phase::CleaningRef { commit }, Reply::Reference(Some(actual))) => if actual
                != commit {
                self.stop(cleanup_error(commit, GitTransactionError::JournalMismatch))
            } else {
                self.go(Phase::DeletingOld { commit }, Action::DeleteTransactionRef { commit })
            },
            (Phase::DeletingOld { commit }, Reply::Done) => self.go(
                Phase::CleanStorage { commit },
                Action::ValidateStorage,
            ),
            (Phase::CleanStorage { commit }, Reply::Done) => if self.purpose
                == Purpose::Recover {
                self.go(Phase::FinalStorage, Action::ValidateStorage)
            } else {
                let successful = copy_all(&self.successful);
                let failures = copy_all(&self.failures);
                self.conclude(Some(BatchCommitOutcome::Committed { commit, successful, failures }))
            },
            _ => self.stop(GitTransactionError::InvalidGitOutput),
        }
    }

    /// Ends with the failure of an action.
    fn fail(self, error: GitTransactionError) -> (result: (Transaction, Action))
        ensures
            (result.0@, result.1@) == failed(self@, error@),
    {
        match self.phase {
            Phase::Syncing { commit } => self.stop(
                GitTransactionError::CanonicalWorktreeSync { commit, source: error.message() },
            ),
            Phase::CleaningWorktree { commit } => self.stop(cleanup_error(commit, error)),
            Phase::CleaningRef { commit } => self.stop(cleanup_error(commit, error)),
            Phase::DeletingOld { commit } => self.stop(cleanup_error(commit, error)),
            _ => self.stop(error),
        }
    }

    /// Begins a transaction.
    pub fn begin(settings: &BatchSettings, purpose: Purpose) -> (result: (Transaction, Action))
        ensures
            (result.0@, result.1@) == begun(*settings, purpose),
    {
        let state = Transaction {
            purpose,
            phase: Phase::Finished,
            journal: None,
            next: 0,
            successful: Vec::new(),
            failures: Vec::new(),
            moves: Vec::new(),
            staged: Vec::new(),
            refused: None,
            paths: Vec::new(),
            compared: 0,
        };
        assert(state@.moves =~= fresh(purpose).moves);
        assert(state@.staged =~= fresh(purpose).staged);
        assert(state@.paths =~= fresh(purpose).paths);
        match purpose {
            Purpose::Apply => if settings.claims.len() == 0 {
                state.stop(GitTransactionError::EmptyBatch)
            } else {
                state.go(Phase::Listing, Action::ListJournals)
            },
            Purpose::Recover => state.go(Phase::Readying, Action::EnsureReady),
            Purpose::Abort => state.go(Phase::Listing, Action::ListJournals),
        }
    }

    /// Decides what comes after a reply.
    pub fn step(self, settings: &BatchSettings, reply: Reply) -> (result: (Transaction, Action))
        ensures
            (result.0@, result.1@) == stepped(*settings, self@, reply),
    {
        let reply = match reply {
            Reply::Failed(error) => {
                return self.fail(error);
            },
            other => other,
        };
        match self.phase {
            Phase::Readying | Phase::Listing | Phase::Reading | Phase::Identifying =>
                self.discover(settings, reply),
            Phase::ComparingBase { .. } | Phase::Rechecking { .. } | Phase::AbortClaims
            | Phase::ConfirmingBase { .. } | Phase::DiscardingWorktree { .. }
            | Phase::DiscardingRef { .. } | Phase::InspectingRef { .. }
            | Phase::ResolvingRef { .. } | Phase::DeletingRef | Phase::DiscardingJournal
            | Phase::AbortStorage => self.discard(settings, reply),
            Phase::CheckingClaims | Phase::CheckingCanonical | Phase::Pinning
            | Phase::CheckingWorktree { .. } | Phase::Naming { .. } | Phase::Preparing { .. }
            | Phase::Adding { .. } | Phase::Rooting { .. } => self.prepare(settings, reply),
            Phase::Applying { .. } | Phase::Staging { .. } | Phase::Resetting { .. }
            | Phase::Emptying { .. } | Phase::EmptyWorktree { .. } | Phase::EmptyOfficial { .. }
            | Phase::EmptyStorage => self.apply(settings, reply),
            Phase::Counting { .. } | Phase::Building { .. } | Phase::Inspecting { .. }
            | Phase::Committing { .. } | Phase::Referring { .. } | Phase::Recording { .. }
            | Phase::Confirming { .. } | Phase::RecoverBase { .. } | Phase::Announcing { .. }
            | Phase::Starting { .. } => self.commit(settings, reply),
            _ => self.publish(settings, reply),
        }
    }
}

} // verus!
