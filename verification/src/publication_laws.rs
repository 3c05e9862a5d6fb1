//! What holds of every publication of a batch, from its beginning to its end.
use crate::git_text::ObjectId;
use crate::journal::{BatchCommitOutcome, OutcomeView};
use crate::processor::{
    committed, publication_begun, published, ProcessorAction, ProcessorActionView, ProcessorPhase,
    ProcessorReply, ProcessorStep, ProcessorView, Publication,
};
use vstd::prelude::*;

verus! {

/// Where a publication stands after replies, and what it does next.
pub open spec fn publication_run(
    publication: Publication,
    search: bool,
    replies: Seq<ProcessorReply>,
) -> ProcessorStep
    decreases replies.len(),
{
    if replies.len() == 0 {
        publication_begun(publication, search)
    } else {
        published(publication_run(publication, search, replies.drop_last()).0, replies.last())
    }
}

/// Whether an action was the one at a point of a publication, and was done.
pub open spec fn done_at(
    publication: Publication,
    search: bool,
    replies: Seq<ProcessorReply>,
    at: int,
    action: ProcessorActionView,
) -> bool {
    &&& 0 <= at < replies.len()
    &&& publication_run(publication, search, replies.take(at)).1 == action
    &&& replies[at] is Done
}

/// Whether a release of a commit was made active, or found active, at a point of a publication.
pub open spec fn active_at(
    publication: Publication,
    search: bool,
    replies: Seq<ProcessorReply>,
    at: int,
    commit: ObjectId,
) -> bool {
    ||| done_at(publication, search, replies, at, ProcessorActionView::Activate)
    ||| 0 <= at < replies.len() && publication_run(publication, search, replies.take(at)).1
        is ReadActive && (replies[at] matches ProcessorReply::Commit(Some(text)) && text@
        == commit.spec_text())
}

/// Whether a release of a commit was prepared, or found prepared, at a point of a publication.
pub open spec fn prepared_at(
    publication: Publication,
    search: bool,
    replies: Seq<ProcessorReply>,
    at: int,
    commit: ObjectId,
) -> bool {
    let action = publication_run(publication, search, replies.take(at)).1;
    &&& 0 <= at < replies.len()
    &&& {
        ||| action == (ProcessorActionView::Prepare { commit }) && replies[at] is Done
        ||| (action == (ProcessorActionView::ResumePrepare { commit }) || action == (
        ProcessorActionView::FindPrepared { commit })) && (replies[at] is Done || replies[at]
            == ProcessorReply::Found(true))
    }
}

/// What holds between the phase of a publication and its last action.
spec fn is_settled(state: ProcessorView, action: ProcessorActionView) -> bool {
    &&& state.phase is Finalizing ==> action == (ProcessorActionView::Finalize {
        released: committed(state) is Some,
    })
    &&& state.phase is Reconciling ==> (state.outcome matches Some(outcome) && action
        == ended_with(outcome))
    &&& state.phase is Activating ==> action == ProcessorActionView::Activate && committed(state)
        is Some
    &&& state.phase is ReadingActive ==> action == ProcessorActionView::ReadActive && committed(
        state,
    ) is Some
    &&& state.phase is FindingRelease ==> (committed(state) matches Some(commit) && (action == (
    ProcessorActionView::FindPrepared { commit }) || action == (
    ProcessorActionView::ResumePrepare { commit })))
    &&& state.phase is Preparing ==> action is Prepare
    &&& state.phase matches ProcessorPhase::Resuming { commit } ==> action == (
    ProcessorActionView::ResumePrepare { commit })
}

/// The end that an outcome brings to its requests in the queue.
pub open spec fn ended_with(outcome: OutcomeView) -> ProcessorActionView {
    match outcome {
        BatchCommitOutcome::Committed { successful, failures, .. } => ProcessorAction::Reconcile {
            successful,
            failures,
        },
        BatchCommitOutcome::NoChanges { failures } => ProcessorAction::Reconcile {
            successful: Seq::empty(),
            failures,
        },
    }
}

proof fn run_is_settled(publication: Publication, search: bool, replies: Seq<ProcessorReply>)
    ensures
        ({
            let (state, action) = publication_run(publication, search, replies);
            &&& is_settled(state, action)
            &&& state.phase is Finalizing ==> state.outcome is Some
        }),
    decreases replies.len(),
{
    if replies.len() > 0 {
        run_is_settled(publication, search, replies.drop_last());
    }
}

/// How a publication came to a phase: by which phase and which reply before it.
proof fn step_leads(state: ProcessorView, reply: ProcessorReply)
    ensures
        ({
            let (next, action) = published(state, reply);
            &&& action matches ProcessorAction::Finish(Ok(outcome)) ==> state.phase is Finalizing
                && reply is Done && state.outcome == Some(outcome)
            &&& next.phase is Finalizing ==> state.phase is Reconciling && reply is Done
                && next.outcome == state.outcome
            &&& next.phase is Reconciling ==> match committed(next) {
                None => true,
                Some(commit) => next.outcome == state.outcome && (state.phase is Activating
                    && reply is Done || (state.phase is ReadingActive && (
                reply matches ProcessorReply::Commit(Some(text)) && text@
                    == commit.spec_text()))),
            }
            &&& next.phase is Activating ==> state.prepared || (state.phase is FindingRelease && (
            reply is Done || reply == ProcessorReply::Found(true)) && committed(next) == committed(
                state,
            ))
            &&& next.prepared && !state.prepared ==> reply is Done && (state.phase is Preparing
                || state.phase is Resuming)
        }),
{
}

proof fn step_prepares(state: ProcessorView, reply: ProcessorReply)
    ensures
        ({
            let (next, action) = published(state, reply);
            &&& next.phase is Preparing ==> (action matches ProcessorAction::Prepare { commit } && (
            reply == (ProcessorReply::PublishAsked { commit }) || state.phase == (
            ProcessorPhase::Rebuilding { commit })))
            &&& next.phase matches ProcessorPhase::Resuming { commit } ==> reply == (
            ProcessorReply::PublishAsked { commit })
            &&& next.phase matches ProcessorPhase::DiscardingStale { commit } ==> state.phase == (
            ProcessorPhase::Resuming { commit })
            &&& next.phase matches ProcessorPhase::Rebuilding { commit } ==> state.phase == (
            ProcessorPhase::DiscardingStale { commit })
            &&& state.prepared ==> next.prepared
            &&& action is Activate ==> next.phase is Activating
        }),
{
}

/// A batch is reported as published only at the end of this: a release of its commit was made
/// active or found active, then its requests were ended in the queue with exactly the tokens of
/// its outcome, and then its journal was removed. A batch without changes needs no release.
pub proof fn publications_end_in_order(
    publication: Publication,
    search: bool,
    replies: Seq<ProcessorReply>,
)
    ensures
        publication_run(publication, search, replies).1 matches ProcessorAction::Finish(Ok(outcome))
            ==> {
            let end = replies.len();
            &&& outcome matches BatchCommitOutcome::Committed { commit, .. } ==> active_at(
                publication,
                search,
                replies,
                end - 3,
                commit,
            )
            &&& done_at(publication, search, replies, end - 2, ended_with(outcome))
            &&& done_at(
                publication,
                search,
                replies,
                end - 1,
                ProcessorActionView::Finalize { released: outcome is Committed },
            )
        },
{
    if publication_run(publication, search, replies).1 matches ProcessorAction::Finish(Ok(_)) {
        let end = replies.len();
        let finalizing = replies.drop_last();
        let reconciling = finalizing.drop_last();
        let activating = reconciling.drop_last();
        run_is_settled(publication, search, finalizing);
        run_is_settled(publication, search, reconciling);
        run_is_settled(publication, search, activating);
        step_leads(publication_run(publication, search, finalizing).0, replies.last());
        step_leads(publication_run(publication, search, reconciling).0, finalizing.last());
        step_leads(publication_run(publication, search, activating).0, reconciling.last());
        assert(replies.take(end - 1) =~= finalizing);
        assert(replies.take(end - 2) =~= reconciling);
        if end >= 3 {
            assert(replies.take(end - 3) =~= activating);
        }
    }
}

proof fn prepared_stays(
    publication: Publication,
    search: bool,
    replies: Seq<ProcessorReply>,
    at: int,
    commit: ObjectId,
)
    requires
        0 <= at < replies.len() - 1,
        prepared_at(publication, search, replies.drop_last(), at, commit),
    ensures
        prepared_at(publication, search, replies, at, commit),
{
    assert(replies.take(at) =~= replies.drop_last().take(at));
    assert(replies[at] == replies.drop_last()[at]);
}

/// The commits that a transaction asks a release of.
pub open spec fn asks_only_for(replies: Seq<ProcessorReply>, commit: ObjectId) -> bool {
    forall|at: int|
        0 <= at < replies.len() ==> (
        #[trigger] replies[at] matches ProcessorReply::PublishAsked { commit: asked } ==> asked
            == commit)
}

/// What a publication prepares, where its transaction asks for releases of one commit only.
spec fn prepares_only(
    publication: Publication,
    search: bool,
    replies: Seq<ProcessorReply>,
    commit: ObjectId,
) -> bool {
    let (state, action) = publication_run(publication, search, replies);
    &&& state.phase is Preparing ==> action == (ProcessorActionView::Prepare { commit })
    &&& state.phase matches ProcessorPhase::Resuming { commit: resumed } ==> resumed == commit
    &&& state.phase matches ProcessorPhase::DiscardingStale { commit: stale } ==> stale == commit
    &&& state.phase matches ProcessorPhase::Rebuilding { commit: rebuilt } ==> rebuilt == commit
    &&& state.prepared ==> exists|at: int|
        0 <= at < replies.len() && #[trigger] prepared_at(publication, search, replies, at, commit)
}

proof fn run_prepares_only(
    publication: Publication,
    search: bool,
    replies: Seq<ProcessorReply>,
    commit: ObjectId,
)
    requires
        asks_only_for(replies, commit),
    ensures
        prepares_only(publication, search, replies, commit),
    decreases replies.len(),
{
    if replies.len() > 0 {
        let earlier = replies.drop_last();
        asked_before(replies, commit);
        run_prepares_only(publication, search, earlier, commit);
        run_is_settled(publication, search, earlier);
        let (before, ordered) = publication_run(publication, search, earlier);
        let step = publication_run(publication, search, replies);
        assert(step == published(before, replies.last()));
        assert(replies[replies.len() - 1] == replies.last());
        step_keeps_preparing(publication, search, replies, commit, before, ordered, step);
    }
}

proof fn asked_before(replies: Seq<ProcessorReply>, commit: ObjectId)
    requires
        replies.len() > 0,
        asks_only_for(replies, commit),
    ensures
        asks_only_for(replies.drop_last(), commit),
{
    let earlier = replies.drop_last();
    assert forall|at: int| 0 <= at < earlier.len() implies (
    #[trigger] earlier[at] matches ProcessorReply::PublishAsked { commit: asked } ==> asked
        == commit) by {
        assert(earlier[at] == replies[at]);
    }
}

#[verifier::spinoff_prover]
proof fn step_keeps_preparing(
    publication: Publication,
    search: bool,
    replies: Seq<ProcessorReply>,
    commit: ObjectId,
    before: ProcessorView,
    ordered: ProcessorActionView,
    step: ProcessorStep,
)
    requires
        replies.len() > 0,
        publication_run(publication, search, replies.drop_last()) == (before, ordered),
        publication_run(publication, search, replies) == step,
        step == published(before, replies.last()),
        prepares_only(publication, search, replies.drop_last(), commit),
        is_settled(before, ordered),
        replies.last() matches ProcessorReply::PublishAsked { commit: asked } ==> asked == commit,
    ensures
        prepares_only(publication, search, replies, commit),
{
    let earlier = replies.drop_last();
    let last = replies.len() - 1;
    step_leads(before, replies.last());
    step_prepares(before, replies.last());
    assert(replies.take(last) =~= earlier);
    assert(replies[last] == replies.last());
    if step.0.prepared {
        if before.prepared {
            let at = choose|at: int|
                0 <= at < earlier.len() && #[trigger] prepared_at(
                    publication,
                    search,
                    earlier,
                    at,
                    commit,
                );
            prepared_stays(publication, search, replies, at, commit);
        } else {
            assert(prepared_at(publication, search, replies, last, commit));
        }
    }
}

/// What a committed batch makes active is a release of its own commit: before it is activated, a
/// release of that commit was prepared or found prepared, where the transaction asks for a release
/// of no other commit than the one that it ends with.
pub proof fn activated_releases_were_prepared(
    publication: Publication,
    search: bool,
    replies: Seq<ProcessorReply>,
    commit: ObjectId,
)
    requires
        asks_only_for(replies, commit),
    ensures
        ({
            let (state, action) = publication_run(publication, search, replies);
            action is Activate && committed(state) == Some(commit) ==> exists|at: int|
                0 <= at < replies.len() && #[trigger] prepared_at(
                    publication,
                    search,
                    replies,
                    at,
                    commit,
                )
        }),
{
    let (state, action) = publication_run(publication, search, replies);
    if action is Activate && committed(state) == Some(commit) && replies.len() > 0 {
        let earlier = replies.drop_last();
        let last = replies.len() - 1;
        asked_before(replies, commit);
        run_prepares_only(publication, search, earlier, commit);
        run_is_settled(publication, search, earlier);
        assert(replies.take(last) =~= earlier);
        assert(replies[last] == replies.last());
        let before = publication_run(publication, search, earlier).0;
        step_leads(before, replies.last());
        step_prepares(before, replies.last());
        if before.prepared {
            let at = choose|at: int|
                0 <= at < earlier.len() && #[trigger] prepared_at(
                    publication,
                    search,
                    earlier,
                    at,
                    commit,
                );
            prepared_stays(publication, search, replies, at, commit);
        } else {
            assert(prepared_at(publication, search, replies, last, commit));
        }
    }
}

} // verus!
