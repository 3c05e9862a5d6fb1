//! What a batch checks before it goes on, and what it writes down when it does.
use crate::apply::{error_code, ApplyError, ApplyFailure, ErrorCode, PathView};
use crate::batch::{
    stepped, Action, ActionView, BatchSettings, Phase, Purpose, Reply, Step, TransactionView,
};
use crate::changes::{components_of, counted};
use crate::commit_message::{commit_problem, message_lines, CommitFacts};
use crate::fields::{ends_with, unlines, words};
use crate::git_error::{GitFailure, GitTransactionError};
use crate::git_output::untracked;
use crate::git_text::{printed_object, printed_text, ObjectId};
use crate::ids::{ulid_text, BatchId, Revision};
use crate::journal::{
    claims_problem, journaled_all, BatchCommitOutcome, JournalState, TransactionJournal,
};
use crate::path::texts;
use crate::repository::{is_removable, tree_object};
use crate::topology::destination;
use vstd::prelude::*;

verus! {

/// A client is told a code exactly for what is the fault of its request: that it was created after
/// it was accepted, that a document is not there, is there already or has changed, that an
/// operation is not allowed or its destination is taken, that the content would not be valid, and
/// that the front matter of a payload is not. For anything else there is no code.
pub proof fn faults_of_requests_have_codes(failure: ApplyFailure)
    ensures
        error_code(failure) == Some(ErrorCode::InvalidRequest)
            <==> failure is RequestCreatedAfterAcceptance,
        error_code(failure) == Some(ErrorCode::DocumentNotFound) <==> failure is DocumentNotFound,
        error_code(failure) == Some(ErrorCode::DocumentIdConflict)
            <==> failure is DocumentIdConflict,
        error_code(failure) == Some(ErrorCode::RevisionConflict) <==> failure is RevisionConflict,
        error_code(failure) == Some(ErrorCode::OperationForbidden)
            <==> failure is OperationForbidden || failure is DestinationExists,
        error_code(failure) == Some(ErrorCode::ContentValidationFailed) <==> (failure matches
            ApplyError::ResultingContent(error) && error !is Io),
        error_code(failure) == Some(ErrorCode::InvalidFrontMatter)
            <==> failure is InvalidPayloadDocument || failure is InvalidPayloadMetadata,
{
}

/// Whether a step ends with a failure.
pub open spec fn fails(step: Step, failure: GitFailure) -> bool {
    step.1 == ActionView::Finish(Err(failure))
}

/// A batch begins alone: beside its own journal no other may stand. Without a journal only a batch
/// that is to be applied goes on, and checks its claims first. A journal counts only in its own
/// queue. One that is still preparing is undone before the batch is applied anew, or is only
/// undone; one with an outcome has to be recovered, and nothing else.
pub proof fn batches_begin_where_they_were_left(
    settings: BatchSettings,
    state: TransactionView,
    names: Vec<String>,
    identity: Revision,
)
    ensures
        state.phase == Phase::Listing ==> {
            let step = stepped(settings, state, Reply::Names(names));
            let alone = forall|i: int|
                0 <= i < texts(names@).len() && ends_with(#[trigger] texts(names@)[i], ".json"@)
                    ==> texts(names@)[i] == ulid_text(settings.batch_id.value) + ".json"@;
            &&& alone ==> step.1 is ReadJournal
            &&& !alone ==> fails(step, GitTransactionError::UnfinishedTransaction)
        },
        state.phase == Phase::Reading ==> {
            let step = stepped(settings, state, Reply::Journal(None));
            &&& state.purpose == Purpose::Apply ==> step.1 is InspectClaims
            &&& state.purpose != Purpose::Apply ==> fails(step, GitTransactionError::JournalMissing)
        },
        state.phase == Phase::Identifying ==> (state.journal matches Some(journal) ==> {
            let step = stepped(settings, state, Reply::Identity(identity));
            let own = journal.queue_identity == identity;
            let purpose = state.purpose;
            &&& !own ==> fails(step, GitTransactionError::JournalMismatch)
            &&& own && journal.state is Preparing ==> {
                &&& purpose == Purpose::Apply ==> step.1 is ResolveOfficial
                &&& purpose == Purpose::Abort ==> step.1 is InspectClaims
                &&& purpose == Purpose::Recover ==> fails(step, GitTransactionError::JournalState)
            }
            &&& own && journal.state !is Preparing ==> {
                &&& purpose == Purpose::Apply ==> fails(
                    step,
                    GitTransactionError::TransactionRequiresRecovery {
                        batch_id: settings.batch_id,
                    },
                )
                &&& purpose == Purpose::Abort ==> fails(step, GitTransactionError::JournalState)
                &&& purpose == Purpose::Recover && journal.state is NoChanges
                    ==> step.1 is ResolveOfficial
                &&& purpose == Purpose::Recover ==> (journal.state matches JournalState::Committed {
                    commit,
                    ..
                } ==> step.1 == (ActionView::InspectCommit { commit }))
            }
        }),
{
}

/// A batch is prepared on clean content: its claims are owned and stand in order, nothing is
/// changed in the canonical worktree, and no worktree of it is left. Then its journal is written,
/// with its claims, the base and what was rejected, before anything else is done.
pub proof fn batches_are_prepared_on_clean_content(
    settings: BatchSettings,
    state: TransactionView,
    ownership: Vec<Option<String>>,
    status: Vec<u8>,
    found: bool,
    identity: Revision,
    object: ObjectId,
)
    ensures
        state.phase == Phase::CheckingClaims ==> {
            let step = stepped(settings, state, Reply::Ownership(ownership));
            let problem = claims_problem(settings.batch_id, settings.claims@, ownership@, 0);
            let counted = ownership@.len() == settings.claims@.len();
            &&& !counted ==> fails(step, GitTransactionError::InvalidClaims)
            &&& counted ==> (problem matches Some(failure) ==> fails(step, failure))
            &&& counted && problem is None ==> step.1 is InspectCanonical
        },
        state.phase == Phase::CheckingCanonical ==> {
            let step = stepped(settings, state, Reply::Output(status));
            &&& status@.len() == 0 ==> step.1 is ResolveOfficial
            &&& status@.len() > 0 ==> fails(step, GitTransactionError::CanonicalWorktreeDirty)
        },
        state.phase == Phase::Pinning ==> {
            let step = stepped(settings, state, Reply::Object(object));
            &&& step.1 is InspectWorktree
            &&& step.0.phase == (Phase::CheckingWorktree { base: object })
        },
        state.phase matches Phase::CheckingWorktree { base } ==> {
            let step = stepped(settings, state, Reply::Exists(found));
            &&& !found ==> step.1 is IdentifyQueue && step.0.phase == (Phase::Naming { base })
            &&& found ==> fails(
                step,
                GitTransactionError::WorktreeAlreadyExists(settings.worktree@),
            )
        },
        state.phase matches Phase::Naming { base } ==> {
            let step = stepped(settings, state, Reply::Identity(identity));
            &&& step.1 matches Action::WriteJournal(journal)
            &&& step.0.journal == Some(journal)
            &&& step.0.phase == (Phase::Preparing { base })
            &&& journal.batch_id == settings.batch_id
            &&& journal.queue_identity == identity
            &&& journal.base_commit == base
            &&& journal.claims == journaled_all(settings.claims@)
            &&& journal.claim_failures == settings.claim_failures
            &&& journal.state is Preparing
        },
        state.phase matches Phase::Preparing { base } ==> stepped(settings, state, Reply::Done).1
            == (ActionView::AddWorktree { base }),
        state.phase matches Phase::Adding { base } ==> stepped(
            settings,
            state,
            Reply::Done,
        ).1 is ResolveTree,
        state.phase is Rooting && state.next < settings.claims@.len() ==> stepped(
            settings,
            state,
            Reply::Object(object),
        ).1 == (ActionView::ApplyClaim { index: state.next }),
{
}

/// A build may change nothing that is to be committed: a commit is made of the tree that was
/// prepared exactly where nothing is unstaged, nothing is untracked, and the tree is still the
/// same. Its message tells what was done, with the counts of the difference.
pub proof fn builds_leave_the_worktree_alone(
    settings: BatchSettings,
    state: TransactionView,
    difference: Vec<u8>,
    unstaged: Vec<u8>,
    visible: Vec<u8>,
    ignored: Vec<u8>,
    output: Vec<u8>,
)
    ensures
        state.phase matches Phase::Counting { base, tree } ==> {
            let step = stepped(settings, state, Reply::Output(difference));
            &&& counted(difference@, state.moves) matches Err(failure) ==> fails(step, failure)
            &&& counted(difference@, state.moves) matches Ok((added, modified)) ==> step.1
                is TrialBuild && (0 <= added <= usize::MAX && 0 <= modified <= usize::MAX ==> (
            step.0.phase matches Phase::Building { base: kept, tree: built, stats } && kept == base
                && built == tree && stats.added == added && stats.modified == modified
                && stats.deleted == 0))
        },
        state.phase matches Phase::Building { base, tree, stats } ==> {
            let step = stepped(settings, state, Reply::Done);
            &&& step.1 is InspectPrepared
            &&& step.0.phase == (Phase::Inspecting { base, tree, stats })
            &&& fails(
                stepped(settings, state, Reply::Rejected),
                GitTransactionError::TrialBuildFailed,
            )
        },
        state.phase matches Phase::Inspecting { base, tree, stats } ==> {
            let step = stepped(
                settings,
                state,
                Reply::Prepared { unstaged, visible, ignored, tree: output },
            );
            let left = untracked(visible@, ignored@);
            let message = unlines(
                message_lines(settings.batch_id, settings.claims@, state.successful, stats),
            );
            let clean = left matches Some(paths) && paths.len() == 0 && unstaged@.len() == 0;
            let same = printed_object(output@) == Some(tree);
            &&& clean && same ==> step.1 == (ActionView::CommitTree { tree, base, message })
            &&& left is None ==> fails(step, GitTransactionError::InvalidGitOutput)
            &&& left is Some && !clean ==> fails(
                step,
                GitTransactionError::TrialBuildMutatedWorktree,
            )
            &&& clean && printed_object(output@) is None ==> fails(
                step,
                GitTransactionError::InvalidGitOutput,
            )
            &&& clean && !same && printed_object(output@) is Some ==> fails(
                step,
                GitTransactionError::TrialBuildMutatedWorktree,
            )
        },
{
}

/// A commit is kept by a reference, written into the journal with the requests in it and the
/// failures, and read back, before a release of it is asked for. Only then the journal says that
/// publication has started; all else in it stays as it was.
pub proof fn commits_are_journaled_before_publication(
    settings: BatchSettings,
    state: TransactionView,
    made: ObjectId,
    facts: CommitFacts,
)
    requires
        state.journal is Some,
    ensures
        state.phase is Committing ==> stepped(settings, state, Reply::Object(made)).1 == (
        ActionView::CreateTransactionRef { commit: made }),
        state.phase matches Phase::Referring { base, commit } ==> {
            let step = stepped(settings, state, Reply::Done);
            let before = state.journal->0;
            &&& step.1 matches Action::WriteJournal(journal)
            &&& step.0.journal == Some(journal)
            &&& journal.batch_id == before.batch_id
            &&& journal.queue_identity == before.queue_identity
            &&& journal.base_commit == before.base_commit
            &&& journal.claims == before.claims
            &&& journal.claim_failures == before.claim_failures
            &&& journal.state matches JournalState::Committed {
                commit: recorded,
                successful,
                failures,
                publication_started,
            }
            &&& recorded == commit
            &&& !publication_started
            &&& successful.len() == state.successful.len()
            &&& forall|i: int|
                0 <= i < successful.len() ==> #[trigger] successful[i]
                    == state.successful[i].request_id
            &&& failures.len() == state.failures.len()
            &&& forall|i: int|
                0 <= i < failures.len() ==> (#[trigger] failures[i]).request_id
                    == state.failures[i].token.request_id && failures[i].error_code
                    == state.failures[i].error_code
        },
        state.phase matches Phase::Recording { base, commit } ==> stepped(
            settings,
            state,
            Reply::Done,
        ).1 == (ActionView::InspectCommit { commit }),
        state.phase matches Phase::Confirming { base, commit } ==> {
            let step = stepped(settings, state, Reply::Commit(facts));
            let problem = commit_problem(state.journal->0, facts);
            let going = state.journal->0.state matches JournalState::Committed {
                publication_started,
                ..
            } && publication_started;
            &&& problem matches Some(failure) ==> fails(step, failure)
            &&& problem is None && state.purpose != Purpose::Recover ==> step.1 == (
            ActionView::BeforePublish { base, commit })
            &&& problem is None && state.purpose == Purpose::Recover && going
                ==> step.1 is ValidateStorage
            &&& problem is None && state.purpose == Purpose::Recover && !going
                ==> step.1 is ResolveOfficial
        },
        state.phase matches Phase::RecoverBase { base, commit } ==> {
            let step = stepped(settings, state, Reply::Object(made));
            &&& made == base ==> step.1 == (ActionView::BeforePublish { base, commit })
            &&& made != base ==> fails(
                step,
                GitTransactionError::OfficialBranchChanged { expected: base, actual: made },
            )
        },
        state.phase matches Phase::Announcing { base, commit } ==> {
            let step = stepped(settings, state, Reply::Done);
            let before = state.journal->0;
            &&& fails(
                stepped(settings, state, Reply::Rejected),
                GitTransactionError::TrialBuildFailed,
            )
            &&& before.state matches JournalState::Committed { commit: recorded, successful, failures, .. }
                ==> step.1 == ActionView::WriteJournal(
                TransactionJournal {
                    batch_id: before.batch_id,
                    queue_identity: before.queue_identity,
                    base_commit: before.base_commit,
                    claims: before.claims,
                    claim_failures: before.claim_failures,
                    state: JournalState::Committed {
                        commit: recorded,
                        successful,
                        failures,
                        publication_started: true,
                    },
                },
            )
        },
        state.phase is Starting ==> stepped(settings, state, Reply::Done).1 is ValidateStorage,
{
}

/// The official branch is advanced under the lock, from the base to the commit, exactly where it
/// still stands at the base, nothing is changed in the canonical worktree, and the reference still
/// keeps the commit. Where it stands at the commit already, what an interruption left in the
/// canonical worktree may only be files of the base. Anywhere else it was changed by others.
pub proof fn branches_are_advanced_from_their_base(
    settings: BatchSettings,
    state: TransactionView,
    actual: ObjectId,
    status: Vec<u8>,
    found: Option<ObjectId>,
    record: Vec<u8>,
    object: Vec<u8>,
    arguments: String,
    stderr: String,
)
    ensures
        state.phase is PublishStorage ==> stepped(settings, state, Reply::Done).1 is LockCanonical,
        state.phase is Locking ==> stepped(settings, state, Reply::Done).1 is ResolveOfficial,
        state.phase matches Phase::PublishBase { base, commit } ==> {
            let step = stepped(settings, state, Reply::Object(actual));
            &&& actual == base ==> step.1 is InspectCanonical
            &&& actual != base && actual == commit ==> step.1 is InspectResidue
            &&& actual != base && actual != commit ==> fails(
                step,
                GitTransactionError::OfficialBranchChanged { expected: base, actual },
            )
        },
        state.phase is PublishCanonical ==> {
            let step = stepped(settings, state, Reply::Output(status));
            &&& status@.len() == 0 ==> step.1 is ResolveTransactionRef
            &&& status@.len() > 0 ==> fails(step, GitTransactionError::CanonicalWorktreeDirty)
        },
        state.phase matches Phase::PublishRef { base, commit } ==> {
            let step = stepped(settings, state, Reply::Reference(found));
            &&& found == Some(commit) ==> step.1 is ValidateStorage
            &&& found != Some(commit) ==> fails(step, GitTransactionError::JournalMismatch)
        },
        state.phase matches Phase::SwapStorage { base, commit } ==> stepped(
            settings,
            state,
            Reply::Done,
        ).1 == (ActionView::CompareAndSwap { base, commit }),
        state.phase matches Phase::Swapping { base, commit } ==> {
            let step = stepped(settings, state, Reply::SwapRefused { actual, arguments, stderr });
            &&& stepped(settings, state, Reply::Done).1 == (ActionView::SyncCanonical { commit })
            &&& actual != base ==> fails(
                step,
                GitTransactionError::OfficialBranchChanged { expected: base, actual },
            )
            &&& actual == base ==> fails(
                step,
                GitTransactionError::GitCommand { arguments: arguments@, stderr: stderr@ },
            )
        },
        state.phase matches Phase::ResidueFile { base, commit } ==> state.compared
            < state.paths.len() <= usize::MAX ==> {
            let step = stepped(settings, state, Reply::File { record, object });
            let path = state.paths[state.compared as int];
            let held = tree_object(record@, components_of(path));
            let same = held matches Ok(Some(expected)) && printed_object(object@) == Some(expected);
            &&& same && state.compared + 1 < state.paths.len() ==> step.1 == (
            ActionView::InspectFile { base, path: state.paths[state.compared + 1] })
            &&& same && state.compared + 1 == state.paths.len() ==> step.1 == (
            ActionView::SyncCanonical { commit })
            &&& !same ==> (step.1 matches Action::Finish(Err(_)))
            &&& held == Ok::<Option<ObjectId>, GitFailure>(None) ==> fails(
                step,
                GitTransactionError::CanonicalWorktreeDirty,
            )
        },
{
}

/// Behind a published commit the canonical worktree is brought to it, and the worktree and the
/// reference of the batch are removed; then the batch ends, an applied one with the commit, its
/// successes and its failures. What fails there is reported as a failure behind that commit, and
/// what fails elsewhere as what it is.
pub proof fn published_batches_clean_up(
    settings: BatchSettings,
    state: TransactionView,
    error: GitTransactionError,
    actual: ObjectId,
)
    ensures
        state.phase matches Phase::Syncing { commit } ==> {
            &&& stepped(settings, state, Reply::Done).1 is RemoveWorktree
            &&& fails(
                stepped(settings, state, Reply::Failed(error)),
                GitTransactionError::CanonicalWorktreeSync {
                    commit,
                    source: crate::git_error::git_message(error@),
                },
            )
        },
        state.phase matches Phase::CleaningWorktree { commit } ==> stepped(
            settings,
            state,
            Reply::Done,
        ).1 is ResolveTransactionRef,
        state.phase matches Phase::CleaningRef { commit } ==> {
            let step = stepped(settings, state, Reply::Reference(Some(actual)));
            &&& stepped(settings, state, Reply::Reference(None)).1 is ValidateStorage
            &&& actual == commit ==> step.1 == (ActionView::DeleteTransactionRef { commit })
            &&& actual != commit ==> fails(
                step,
                GitTransactionError::PostCommitCleanup {
                    commit,
                    source: crate::git_error::git_message(GitTransactionError::JournalMismatch),
                },
            )
        },
        state.phase is DeletingOld ==> stepped(settings, state, Reply::Done).1 is ValidateStorage,
        state.phase matches Phase::CleaningWorktree { commit } ==> fails(
            stepped(settings, state, Reply::Failed(error)),
            GitTransactionError::PostCommitCleanup {
                commit,
                source: crate::git_error::git_message(error@),
            },
        ),
        state.phase matches Phase::CleanStorage { commit } ==> {
            let step = stepped(settings, state, Reply::Done);
            &&& state.purpose == Purpose::Recover ==> step.1 is ValidateStorage
            &&& state.purpose != Purpose::Recover ==> step.1 == ActionView::Finish(
                Ok(
                    Some(
                        BatchCommitOutcome::Committed {
                            commit,
                            successful: state.successful,
                            failures: state.failures,
                        },
                    ),
                ),
            )
        },
        state.phase is EmptyStorage ==> stepped(settings, state, Reply::Done).1
            == ActionView::Finish(
            Ok(Some(BatchCommitOutcome::NoChanges { failures: state.failures })),
        ),
        state.phase !is Syncing && state.phase !is CleaningWorktree && state.phase !is CleaningRef
            && state.phase !is DeletingOld ==> fails(
            stepped(settings, state, Reply::Failed(error)),
            error@,
        ),
{
}

/// What an interrupted attempt left is discarded exactly where it is of this batch: the branch still
/// stands at its base, its claims are those of the journal, and its commit, if there is one, has the
/// base as its only parent and names the batch.
pub proof fn only_own_attempts_are_discarded(
    settings: BatchSettings,
    state: TransactionView,
    actual: ObjectId,
    ownership: Vec<Option<String>>,
    parents: Vec<u8>,
    trailer: Vec<u8>,
)
    ensures
        state.phase matches Phase::ComparingBase { base } ==> {
            let step = stepped(settings, state, Reply::Object(actual));
            &&& actual == base ==> step.1 is InspectClaims
            &&& actual != base ==> fails(
                step,
                GitTransactionError::OfficialBranchChanged { expected: base, actual },
            )
        },
        state.phase is Rechecking ==> (state.journal matches Some(journal) ==> {
            let step = stepped(settings, state, Reply::Ownership(ownership));
            let own = ownership@.len() == settings.claims@.len() && claims_problem(
                settings.batch_id,
                settings.claims@,
                ownership@,
                0,
            ) is None;
            let same = journal.claims == journaled_all(settings.claims@)
                && journal.claim_failures == settings.claim_failures;
            &&& own && same ==> step.1 is RemoveWorktree
            &&& own && !same ==> fails(step, GitTransactionError::JournalMismatch)
            &&& !own ==> (step.1 matches Action::Finish(Err(_)))
        }),
        state.phase matches Phase::InspectingRef { base, commit } ==> {
            let step = stepped(settings, state, Reply::Trailers { parents, trailer });
            let listed = printed_text(parents@);
            let own = listed is Some && words(listed->0) == seq![
                commit.spec_text(),
                base.spec_text(),
            ] && printed_text(trailer@) == Some(ulid_text(settings.batch_id.value));
            &&& own ==> step.1 is ResolveTransactionRef
            &&& !own ==> (step.1 matches Action::Finish(Err(_)))
        },
        state.phase matches Phase::ResolvingRef { commit } ==> {
            let step = stepped(settings, state, Reply::Reference(Some(actual)));
            &&& actual == commit ==> step.1 == (ActionView::DeleteTransactionRef { commit })
            &&& actual != commit ==> fails(step, GitTransactionError::JournalMismatch)
        },
        state.phase is DiscardingJournal && state.purpose == Purpose::Apply ==> {
            let step = stepped(settings, state, Reply::Done);
            step.1 is InspectClaims && step.0.journal is None
        },
        state.phase is AbortStorage ==> stepped(settings, state, Reply::Done).1
            == ActionView::Finish(Ok(None)),
{
}

/// A path leads to where its longest existing part leads, with the rest of its components behind.
pub proof fn paths_lead_behind_what_exists(
    field: usize,
    path: PathView,
    resolutions: Seq<crate::topology::Resolution>,
    missing: int,
)
    requires
        0 <= missing < resolutions.len(),
        missing <= path.len(),
        forall|i: int|
            0 <= i < missing ==> (#[trigger] resolutions[i]) is Missing,
    ensures
        resolutions[missing] matches crate::topology::Resolution::Resolved(resolved) ==> destination(
            field,
            path,
            resolutions,
            0,
        ) == Ok::<PathView, crate::topology::HaltView>(
            resolved@ + path.subrange(path.len() - missing, path.len() as int),
        ),
{
    what_is_missing_is_kept(field, path, resolutions, 0, missing);
    assert(path.skip(path.len() - missing) =~= path.subrange(
        path.len() - missing,
        path.len() as int,
    ));
}

proof fn what_is_missing_is_kept(
    field: usize,
    path: PathView,
    resolutions: Seq<crate::topology::Resolution>,
    from: int,
    missing: int,
)
    requires
        0 <= from <= missing < resolutions.len(),
        missing <= path.len(),
        forall|i: int|
            0 <= i < missing ==> (#[trigger] resolutions[i]) is Missing,
    ensures
        destination(field, path, resolutions, from) == destination(
            field,
            path,
            resolutions,
            missing,
        ),
    decreases missing - from,
{
    if from < missing {
        what_is_missing_is_kept(field, path, resolutions, from + 1, missing);
    }
}

/// A leftover directory may be removed exactly where it stands directly under the worktree root and
/// is named `batch-` and the canonical text of a batch.
pub proof fn removable_directories_are_named_after_batches(
    direct_child: bool,
    name: Option<Seq<char>>,
    batch_id: BatchId,
)
    ensures
        is_removable(direct_child, name) ==> direct_child && exists|batch: BatchId|
            name == Some("batch-"@ + #[trigger] ulid_text(batch.value)),
        is_removable(true, Some("batch-"@ + ulid_text(batch_id.value))),
{
    let prefix = "batch-"@;
    if is_removable(direct_child, name) {
        let text = name->0;
        let rest = text.skip(prefix.len() as int);
        let batch = crate::repository::named_batch(rest)->0;
        assert(text =~= prefix + rest);
        assert(name == Some(prefix + ulid_text(batch.value)));
    }
    crate::repository::batches_are_named(batch_id);
    let text = prefix + ulid_text(batch_id.value);
    assert(text.skip(prefix.len() as int) =~= ulid_text(batch_id.value));
    assert(prefix.is_prefix_of(text));
}

} // verus!
