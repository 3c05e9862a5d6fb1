//! What a startup does with the work that was left, and how a batch is published, said of what is
//! ordered after each reply.
use crate::git_error::GitTransactionError;
use crate::git_text::ObjectId;
use crate::ids::BatchId;
use crate::journal::{BatchCommitOutcome, OutcomeView};
use crate::processor::{
    publication_begun, published, BatchProcessorError, ProcessorActionView, ProcessorReply,
    ProcessorStep, ProcessorView, Publication,
};
use crate::repository::RepositoryTransaction;
use crate::run_error::WorkerRunError;
use crate::startup::{
    in_acceptance_order, recovered_claims_are_ordered, recovery_scan, startup_begun,
    startup_stepped, InterruptibleStart, ProcessingClaim, StartupActionView, StartupOutcome,
    StartupReply, StartupStep, StartupView,
};
use crate::config::WorkerRunLimits;
use vstd::prelude::*;

verus! {

/// Where a startup stands once all interrupted claims and the interrupted transaction are known,
/// and nothing asked it to stop.
pub open spec fn known(
    limits: WorkerRunLimits,
    replication: bool,
    summarized: Option<RepositoryTransaction>,
    claims: Vec<ProcessingClaim>,
    transaction: Option<RepositoryTransaction>,
) -> StartupStep {
    let opened = startup_begun(limits, replication);
    let summarizing = startup_stepped(opened.0, StartupReply::Done);
    let scanning = startup_stepped(summarizing.0, StartupReply::Transaction(summarized));
    let scanned = startup_stepped(scanning.0, StartupReply::Claims { claims, complete: true });
    let discovering = startup_stepped(scanned.0, StartupReply::Stop(false));
    let discovered = startup_stepped(discovering.0, StartupReply::Transaction(transaction));
    startup_stepped(discovered.0, StartupReply::Stop(false))
}

/// Whether a startup has ended well with an outcome; with replication, once its thread is started.
pub open spec fn has_started(step: StartupStep, replication: bool, outcome: StartupView) -> bool {
    let done = StartupActionView::Finish(Ok(InterruptibleStart::Started(outcome)));
    if replication {
        step.1 is StartReplication && startup_stepped(step.0, StartupReply::Done).1 == done
    } else {
        step.1 == done
    }
}

/// Whether interrupted claims are all of one batch.
pub open spec fn are_of(claims: Seq<ProcessingClaim>, batch_id: BatchId) -> bool {
    forall|i: int| 0 <= i < claims.len() ==> (#[trigger] claims[i]).token.batch_id == batch_id
}

/// Whether claims stand in the order of their acceptance, those without a number first.
pub open spec fn are_in_order(claims: Seq<ProcessingClaim>) -> bool {
    forall|i: int, j: int|
        0 <= i < j < claims.len() ==> {
            &&& (#[trigger] claims[i]).sequence is Some ==> (
            #[trigger] claims[j]).sequence is Some
            &&& claims[i].sequence is Some && claims[j].sequence is Some ==> claims[i].sequence->0
                <= claims[j].sequence->0
        }
}

proof fn order_keeps_claims(claims: Seq<ProcessingClaim>)
    ensures
        ({
            let ordered = in_acceptance_order(claims);
            &&& ordered.len() == claims.len()
            &&& ordered.to_multiset() == claims.to_multiset()
            &&& are_in_order(ordered)
            &&& forall|batch_id: BatchId| #[trigger]
                are_of(claims, batch_id) <==> are_of(ordered, batch_id)
        }),
{
    broadcast use vstd::seq_lib::group_to_multiset_ensures;

    recovered_claims_are_ordered(claims);
    let ordered = in_acceptance_order(claims);
    assert(ordered.len() == ordered.to_multiset().len());
    assert(claims.len() == claims.to_multiset().len());
    assert forall|i: int, j: int| 0 <= i < j < ordered.len() implies {
        &&& (#[trigger] ordered[i]).sequence is Some ==> (#[trigger] ordered[j]).sequence is Some
        &&& ordered[i].sequence is Some && ordered[j].sequence is Some ==> ordered[i].sequence->0
            <= ordered[j].sequence->0
    } by {
        assert(!crate::startup::accepted_before(ordered[j], ordered[i]));
    }
    assert forall|batch_id: BatchId| #[trigger] are_of(claims, batch_id) <==> are_of(
        ordered,
        batch_id,
    ) by {
        if are_of(claims, batch_id) {
            assert forall|i: int| 0 <= i < ordered.len() implies (
            #[trigger] ordered[i]).token.batch_id == batch_id by {
                assert(ordered.contains(ordered[i]));
                assert(ordered.to_multiset().count(ordered[i]) > 0);
                assert(claims.contains(ordered[i]));
                let k = choose|k: int| 0 <= k < claims.len() && claims[k] == ordered[i];
                assert(claims[k].token.batch_id == batch_id);
            }
        }
        if are_of(ordered, batch_id) {
            assert forall|i: int| 0 <= i < claims.len() implies (
            #[trigger] claims[i]).token.batch_id == batch_id by {
                assert(claims.contains(claims[i]));
                assert(claims.to_multiset().count(claims[i]) > 0);
                assert(ordered.contains(claims[i]));
                let k = choose|k: int| 0 <= k < ordered.len() && ordered[k] == claims[i];
                assert(ordered[k].token.batch_id == batch_id);
            }
        }
    }
}

proof fn only_batch_is_shared(claims: Seq<ProcessingClaim>, batch_id: BatchId)
    requires
        are_of(claims, batch_id),
    ensures
        claims.len() > 0 ==> crate::startup::only_batch(claims) == Ok::<
            Option<BatchId>,
            crate::run_error::RecoveryFailure,
        >(Some(batch_id)),
        claims.len() == 0 ==> crate::startup::only_batch(claims) == Ok::<
            Option<BatchId>,
            crate::run_error::RecoveryFailure,
        >(None),
{
    if claims.len() > 0 {
        no_stray(claims, batch_id, 1);
    }
}

proof fn no_stray(claims: Seq<ProcessingClaim>, batch_id: BatchId, at: int)
    requires
        are_of(claims, batch_id),
    ensures
        crate::startup::stray_from(claims, batch_id, at) is None,
    decreases claims.len() - at,
{
    if 0 <= at < claims.len() {
        no_stray(claims, batch_id, at + 1);
    }
}

/// A startup resolves what was left, whatever that is. With nothing left it is clean. Claims of a
/// batch that never began a transaction are returned, each by its own token in the order of
/// acceptance. A transaction that was preparing is processed again, with all claims in the order of
/// acceptance; one that has its outcome is recovered. Then the outcome of the batch is what the
/// startup reports, with the requests that were rejected while the batch was claimed.
pub proof fn startups_resolve_what_was_left(
    limits: WorkerRunLimits,
    replication: bool,
    summarized: Option<RepositoryTransaction>,
    claims: Vec<ProcessingClaim>,
    transaction: Option<RepositoryTransaction>,
    batch_id: BatchId,
    claim_failures: usize,
    outcome: BatchCommitOutcome,
)
    requires
        claims@.len() <= limits.spec_recovery_requests(),
        are_of(claims@, batch_id),
    ensures
        ({
            let step = known(limits, replication, summarized, claims, transaction);
            let going = startup_stepped(step.0, StartupReply::Stop(false));
            let ended = startup_stepped(going.0, StartupReply::Outcome(outcome));
            let left = in_acceptance_order(claims@);
            &&& left.to_multiset() == claims@.to_multiset()
            &&& are_in_order(left)
            &&& transaction is None && claims@.len() == 0 ==> has_started(
                step,
                replication,
                StartupOutcome::Clean,
            )
            &&& transaction is None && claims@.len() > 0 ==> {
                &&& step.1 is PollStop
                &&& going.1 == (StartupActionView::Requeue { token: left[0].token })
                &&& step.0.claims == left
            }
            &&& transaction == Some(
                RepositoryTransaction::Recoverable { batch_id, claim_failures },
            ) ==> {
                &&& step.1 is PollStop
                &&& going.1 == (StartupActionView::Recover { batch_id })
                &&& has_started(
                    ended,
                    replication,
                    StartupOutcome::Resumed { batch_id, outcome: outcome@, claim_failures },
                )
                &&& startup_stepped(step.0, StartupReply::Stop(true)).1
                    == StartupActionView::Finish(
                    Ok(InterruptibleStart::Stopped { failed_requests: claim_failures }),
                )
            }
            &&& transaction == Some(
                RepositoryTransaction::Preparing { batch_id, claim_failures },
            ) && claims@.len() > 0 ==> {
                &&& step.1 is PollStop
                &&& going.1 == (StartupActionView::Process {
                    batch_id,
                    claims: left,
                    claim_failures,
                })
                &&& has_started(
                    ended,
                    replication,
                    StartupOutcome::Resumed { batch_id, outcome: outcome@, claim_failures },
                )
                &&& startup_stepped(step.0, StartupReply::Stop(true)).1
                    == StartupActionView::Finish(
                    Ok(InterruptibleStart::Stopped { failed_requests: claim_failures }),
                )
            }
            &&& transaction == Some(
                RepositoryTransaction::Preparing { batch_id, claim_failures },
            ) && claims@.len() == 0 ==> step.1 == StartupActionView::Finish(
                Err(
                    WorkerRunError::MissingProcessingClaims {
                        batch_id,
                        failed_requests: claim_failures,
                    },
                ),
            )
        }),
{
    order_keeps_claims(claims@);
    assert(Seq::<ProcessingClaim>::empty() + claims@ =~= claims@);
    only_batch_is_shared(in_acceptance_order(claims@), batch_id);
}

/// Interrupted claims of one batch beside the transaction of another are refused, and so are more
/// claims than a startup may hold.
pub proof fn startups_refuse_what_does_not_fit(
    limits: WorkerRunLimits,
    replication: bool,
    summarized: Option<RepositoryTransaction>,
    claims: Vec<ProcessingClaim>,
    transaction: RepositoryTransaction,
    batch_id: BatchId,
)
    requires
        are_of(claims@, batch_id),
        claims@.len() > 0,
    ensures
        ({
            let repository = match transaction {
                RepositoryTransaction::Preparing { batch_id, .. } => batch_id,
                RepositoryTransaction::Recoverable { batch_id, .. } => batch_id,
            };
            let failed_requests = match transaction {
                RepositoryTransaction::Preparing { claim_failures, .. } => claim_failures,
                RepositoryTransaction::Recoverable { claim_failures, .. } => claim_failures,
            };
            let opened = startup_begun(limits, replication);
            let summarizing = startup_stepped(opened.0, StartupReply::Done);
            let scanning = startup_stepped(summarizing.0, StartupReply::Transaction(summarized));
            let scanned = startup_stepped(
                scanning.0,
                StartupReply::Claims { claims, complete: true },
            );
            &&& claims@.len() <= limits.spec_recovery_requests() && repository != batch_id
                ==> known(limits, replication, summarized, claims, Some(transaction)).1
                == StartupActionView::Finish(
                Err(
                    WorkerRunError::TransactionBatchMismatch {
                        processing: batch_id,
                        repository,
                        failed_requests,
                    },
                ),
            )
            &&& claims@.len() > limits.spec_recovery_requests() && summarized is None
                ==> scanned.1 == StartupActionView::Finish(
                Err(
                    WorkerRunError::TooManyProcessingClaims {
                        maximum: limits.spec_recovery_requests(),
                    },
                ),
            )
            &&& claims@.len() <= limits.spec_recovery_requests() ==> scanned.1 is PollStop
        }),
{
    order_keeps_claims(claims@);
    assert(Seq::<ProcessingClaim>::empty() + claims@ =~= claims@);
    only_batch_is_shared(in_acceptance_order(claims@), batch_id);
}

/// Where a batch that is processed stands once its transaction has ended: its trial was built and
/// its release was prepared, of the commit that the transaction asked for.
pub open spec fn transacted_well(search: bool, commit: ObjectId, outcome: BatchCommitOutcome) -> (
    ProcessorStep,
    ProcessorStep,
    ProcessorStep,
) {
    let begun = publication_begun(Publication::Process, search);
    let building = published(begun.0, ProcessorReply::BuildAsked);
    let built = published(building.0, ProcessorReply::Done);
    let preparing = published(built.0, ProcessorReply::PublishAsked { commit });
    let prepared = published(preparing.0, ProcessorReply::Done);
    (building, preparing, published(prepared.0, ProcessorReply::Ended(Ok(outcome))))
}

/// Whether a batch whose release is active ends: its requests are ended in the queue with the
/// tokens of its outcome, its journal is removed, and its outcome is reported.
pub open spec fn ends_with(step: ProcessorStep, outcome: OutcomeView) -> bool {
    let finalizing = published(step.0, ProcessorReply::Done);
    let finished = published(finalizing.0, ProcessorReply::Done);
    &&& outcome matches BatchCommitOutcome::Committed { successful, failures, .. } ==> step.1 == (
    ProcessorActionView::Reconcile { successful, failures })
    &&& outcome matches BatchCommitOutcome::NoChanges { failures } ==> step.1 == (
    ProcessorActionView::Reconcile { successful: Seq::empty(), failures })
    &&& finalizing.1 == (ProcessorActionView::Finalize { released: outcome is Committed })
    &&& finished.1 == ProcessorActionView::Finish(Ok(outcome))
}

/// A batch that nothing disturbs is published: a trial is built, a release of its commit is
/// prepared from it, the search index is brought to that commit where there is one, the release is
/// made active, and the batch ends. One without changes ends at once.
pub proof fn undisturbed_publications_end_well(
    search: bool,
    commit: ObjectId,
    outcome: BatchCommitOutcome,
    found: Option<String>,
    text: String,
)
    requires
        outcome@ matches BatchCommitOutcome::Committed { commit: made, .. } ==> made == commit,
        text@ == commit.spec_text(),
        found matches Some(other) ==> other@ != commit.spec_text(),
    ensures
        ({
            let (building, preparing, step) = transacted_well(search, commit, outcome);
            let looked = published(step.0, ProcessorReply::Commit(found));
            let current = published(step.0, ProcessorReply::Commit(Some(text)));
            let snapshot = published(looked.0, ProcessorReply::Commit(Some(text)));
            let indexed = published(snapshot.0, ProcessorReply::Done);
            &&& building.1 is Build
            &&& preparing.1 == (ProcessorActionView::Prepare { commit })
            &&& outcome@ is NoChanges ==> ends_with(step, outcome@)
            &&& outcome@ is Committed && !search ==> step.1 is Activate && ends_with(
                published(step.0, ProcessorReply::Done),
                outcome@,
            )
            &&& outcome@ is Committed && search ==> {
                &&& step.1 is LookupIndex
                &&& current.1 is Activate
                &&& ends_with(published(current.0, ProcessorReply::Done), outcome@)
                &&& looked.1 is OpenSnapshot
                &&& snapshot.1 is PublishIndex
                &&& indexed.1 is Activate
                &&& ends_with(published(indexed.0, ProcessorReply::Done), outcome@)
            }
        }),
{
}

/// A batch that is recovered is published too: an interrupted release of its commit is resumed, or
/// made anew from a new build where there is nothing to resume, and it is made active unless it is
/// so already.
pub proof fn undisturbed_recoveries_end_well(
    commit: ObjectId,
    outcome: BatchCommitOutcome,
    reason: String,
    active: Option<String>,
    text: String,
)
    requires
        outcome@ matches BatchCommitOutcome::Committed { commit: made, .. } && made == commit,
        text@ == commit.spec_text(),
        active matches Some(other) ==> other@ != commit.spec_text(),
    ensures
        ({
            let begun = publication_begun(Publication::Recover, false);
            let resuming = published(begun.0, ProcessorReply::PublishAsked { commit });
            let resumed = published(resuming.0, ProcessorReply::Done);
            let stale = published(resuming.0, ProcessorReply::NothingToResume(reason));
            let building = published(stale.0, ProcessorReply::Done);
            let preparing = published(building.0, ProcessorReply::Done);
            let prepared = published(preparing.0, ProcessorReply::Done);
            let reading = published(prepared.0, ProcessorReply::Ended(Ok(outcome)));
            let early = published(resumed.0, ProcessorReply::Ended(Ok(outcome)));
            let inactive = published(early.0, ProcessorReply::Commit(active));
            let unasked = published(begun.0, ProcessorReply::Ended(Ok(outcome)));
            let missing = published(unasked.0, ProcessorReply::Commit(active));
            &&& begun.1 is Transact
            &&& resuming.1 == (ProcessorActionView::ResumePrepare { commit })
            &&& resumed.1 == ProcessorActionView::Answer(true)
            &&& stale.1 is DiscardBuild
            &&& building.1 is Build
            &&& preparing.1 == (ProcessorActionView::Prepare { commit })
            &&& prepared.1 == ProcessorActionView::Answer(true)
            &&& reading.1 is ReadActive
            &&& early.1 is ReadActive
            &&& unasked.1 is ReadActive
            &&& inactive.1 is Activate
            &&& ends_with(published(inactive.0, ProcessorReply::Done), outcome@)
            &&& ends_with(published(early.0, ProcessorReply::Commit(Some(text))), outcome@)
            &&& missing.1 == (ProcessorActionView::ResumePrepare { commit })
            &&& published(missing.0, ProcessorReply::Done).1 is Activate
            &&& published(missing.0, ProcessorReply::NothingToResume(reason)).1
                == ProcessorActionView::Finish(Err(BatchProcessorError::Release(reason@)))
        }),
{
}

/// What goes wrong is reported as what it is: a trial that cannot be built or prepared answers no,
/// and once the transaction has ended for it the trial is undone and the first failure is
/// reported; a failure behind the commit is reported at once, and nothing is ended in the queue.
pub proof fn failed_publications_are_reported(
    state: ProcessorView,
    error: BatchProcessorError,
    failure: GitTransactionError,
)
    ensures
        ({
            let begun = publication_begun(Publication::Process, state.search);
            let building = published(begun.0, ProcessorReply::BuildAsked);
            let refused = published(building.0, ProcessorReply::Failed(error));
            let aborting = published(refused.0, ProcessorReply::Ended(Err(failure)));
            let discarding = published(aborting.0, ProcessorReply::Done);
            &&& refused.1 == ProcessorActionView::Answer(false)
            &&& aborting.1 is AbortPreparing
            &&& discarding.1 is DiscardBuild
            &&& published(discarding.0, ProcessorReply::Done).1 == ProcessorActionView::Finish(
                Err(error@),
            )
            &&& published(begun.0, ProcessorReply::Ended(Err(failure))).1
                == ProcessorActionView::Finish(Err(BatchProcessorError::Repository(failure@)))
        }),
        state.phase is IndexLookup || state.phase is IndexSnapshot || state.phase is IndexPublishing
            || state.phase is FindingRelease || state.phase is ReadingActive
            || state.phase is Activating || state.phase is Reconciling || state.phase is Finalizing
            ==> published(state, ProcessorReply::Failed(error)).1 == ProcessorActionView::Finish(
            Err(error@),
        ),
{
}

/// A recovery scan looks at no more entries than a scan may, and at one more than there is room for
/// claims, so that one too many is seen.
pub proof fn recovery_scans_see_one_too_many(limits: WorkerRunLimits, recovered: int)
    requires
        0 <= recovered <= limits.spec_recovery_requests() < usize::MAX,
        limits.spec_scan_entries() > 0,
    ensures
        ({
            let entries = recovery_scan(limits, recovered);
            let room = limits.spec_recovery_requests() - recovered;
            &&& 0 < entries <= limits.spec_scan_entries()
            &&& entries <= room + 1
            &&& entries == limits.spec_scan_entries() || entries == room + 1
        }),
{
}

} // verus!
