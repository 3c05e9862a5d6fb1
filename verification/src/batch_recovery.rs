//! What holds of recovering a batch that had already ended.
use crate::batch::{
    stage, stepped, Action, ActionView, BatchSettings, Phase, Purpose, Reply, TransactionView,
};
use crate::batch_laws::{
    before_reading, cleaned, done_stays, interrupted_batches_keep_their_outcome, is_cleaning,
    is_recovering, published, run, run_decides, run_is_sound, run_recovers, was_done,
};
use crate::commit_message::commit_problem;
use crate::git_error::GitFailure;
use crate::git_output::untracked;
use crate::journal::{accepted, is_consistent, outcome_of, JournalState, JournalView, OutcomeView};
use crate::path::texts;
use crate::repository::is_alone;
use vstd::prelude::*;

verus! {

/// Whether a journal is that of a batch that needs no publication any more: its publication was
/// started, or there was nothing to publish.
pub open spec fn is_settled(journal: JournalView) -> bool {
    match journal.state {
        JournalState::Preparing => false,
        JournalState::NoChanges { .. } => true,
        JournalState::Committed { publication_started, .. } => publication_started,
    }
}

/// The phases of a recovery that works on a settled journal.
spec fn is_resuming(phase: Phase, journal: JournalView) -> bool {
    ||| phase is Identifying || phase is FinalStorage
    ||| journal.state is NoChanges && (phase is ConfirmingBase || phase is DiscardingWorktree
        || phase is DiscardingRef || phase is InspectingRef || phase is ResolvingRef
        || phase is DeletingRef)
    ||| journal.state is Committed && (phase is Confirming || published(phase) is Some
        || is_cleaning(phase))
}

/// What holds of a recovery while it works on a settled journal.
spec fn resumes(state: TransactionView, journal: JournalView) -> bool {
    ||| before_reading(state.phase)
    ||| state.phase is Finished
    ||| is_resuming(state.phase, journal) && state.journal == Some(journal)
}

#[verifier::spinoff_prover]
#[verifier::rlimit(60)]
proof fn stepped_resumes(
    settings: BatchSettings,
    journal: JournalView,
    state: TransactionView,
    reply: Reply,
)
    requires
        state.purpose == Purpose::Recover,
        is_settled(journal),
        resumes(state, journal),
        reply matches Reply::Journal(Some(stored)) ==> accepted(stored, settings.batch_id) == Ok::<
            JournalView,
            GitFailure,
        >(journal),
    ensures
        ({
            let (next, action) = stepped(settings, state, reply);
            &&& resumes(next, journal)
            &&& !(action is BeforePublish)
            &&& !(action is WriteJournal)
            &&& !(action is RemoveJournal)
            &&& action matches Action::Finish(Ok(found)) ==> (found matches Some(outcome)
                && outcome_of(journal) == Ok::<OutcomeView, GitFailure>(outcome))
        }),
{
}

/// Whether every journal that replies hold is a given one.
pub open spec fn reads_only(settings: BatchSettings, replies: Seq<Reply>, journal: JournalView) -> bool {
    forall|at: int|
        0 <= at < replies.len() ==> (#[trigger] replies[at] matches Reply::Journal(Some(stored))
            ==> accepted(stored, settings.batch_id) == Ok::<JournalView, GitFailure>(journal))
}

proof fn run_resumes(settings: BatchSettings, journal: JournalView, replies: Seq<Reply>)
    requires
        is_settled(journal),
        reads_only(settings, replies, journal),
    ensures
        ({
            let (state, action) = run(settings, Purpose::Recover, replies);
            &&& resumes(state, journal)
            &&& !(action is BeforePublish)
            &&& !(action is WriteJournal)
            &&& !(action is RemoveJournal)
            &&& action matches Action::Finish(Ok(found)) ==> (found matches Some(outcome)
                && outcome_of(journal) == Ok::<OutcomeView, GitFailure>(outcome))
        }),
    decreases replies.len(),
{
    if replies.len() > 0 {
        let earlier = replies.drop_last();
        assert forall|at: int| 0 <= at < earlier.len() implies (
        #[trigger] earlier[at] matches Reply::Journal(Some(stored)) ==> accepted(
            stored,
            settings.batch_id,
        ) == Ok::<JournalView, GitFailure>(journal)) by {
            assert(earlier[at] == replies[at]);
        }
        run_resumes(settings, journal, earlier);
        run_is_sound(settings, Purpose::Recover, earlier);
        assert(replies[replies.len() - 1] == replies.last());
        stepped_resumes(
            settings,
            journal,
            run(settings, Purpose::Recover, earlier).0,
            replies.last(),
        );
    }
}

/// The journal with which a run to apply a batch ended.
pub open spec fn left_journal(settings: BatchSettings, applied: Seq<Reply>) -> JournalView {
    run(settings, Purpose::Apply, applied).0.journal->0
}

/// Whether attempts and positions of claims count from one.
pub open spec fn counts_from_one(settings: BatchSettings) -> bool {
    forall|i: int|
        0 <= i < settings.claims@.len() ==> (#[trigger] settings.claims@[i]).token.attempt > 0 && (
        settings.claims@[i].sequence matches Some(sequence) ==> sequence > 0)
}

#[verifier::spinoff_prover]
#[verifier::rlimit(60)]
proof fn ends_keep_the_journal(settings: BatchSettings, state: TransactionView, reply: Reply)
    requires
        state.purpose == Purpose::Apply,
        !(state.phase is FinalStorage),
    ensures
        ({
            let (next, action) = stepped(settings, state, reply);
            action matches Action::Finish(Ok(Some(outcome))) ==> {
                &&& next.journal == state.journal
                &&& match outcome {
                    OutcomeView::NoChanges { failures } => state.phase is EmptyStorage && failures
                        == state.failures,
                    OutcomeView::Committed { commit, successful, failures } => state.phase == (
                    Phase::CleanStorage { commit }) && successful == state.successful && failures
                        == state.failures,
                }
            }
        }),
{
}

/// A batch that ended leaves a consistent journal that needs no publication any more and that
/// records exactly its outcome.
pub proof fn ended_batches_leave_their_outcome(settings: BatchSettings, applied: Seq<Reply>)
    requires
        counts_from_one(settings),
    ensures
        run(settings, Purpose::Apply, applied).1 matches Action::Finish(Ok(Some(outcome))) ==> {
            let journal = left_journal(settings, applied);
            &&& run(settings, Purpose::Apply, applied).0.journal == Some(journal)
            &&& is_consistent(journal, settings.batch_id)
            &&& is_settled(journal)
            &&& outcome_of(journal) == Ok::<OutcomeView, GitFailure>(outcome)
        },
{
    if applied.len() > 0 {
        let earlier = applied.drop_last();
        let before = run(settings, Purpose::Apply, earlier).0;
        run_is_sound(settings, Purpose::Apply, earlier);
        run_decides(settings, earlier);
        interrupted_batches_keep_their_outcome(settings, earlier);
        ends_keep_the_journal(settings, before, applied.last());
    }
}

/// Recovering a batch that ended gives its outcome again, however often it is repeated: a recovery
/// that reads the journal which the batch left prepares nothing for publication, leaves the
/// journal as it is, and can end well only with that outcome.
pub proof fn ended_batches_recover_alike(
    settings: BatchSettings,
    applied: Seq<Reply>,
    replies: Seq<Reply>,
)
    requires
        counts_from_one(settings),
        run(settings, Purpose::Apply, applied).1 matches Action::Finish(Ok(Some(outcome))),
        reads_only(settings, replies, left_journal(settings, applied)),
    ensures
        ({
            let (state, action) = run(settings, Purpose::Recover, replies);
            &&& !(action is BeforePublish)
            &&& !(action is WriteJournal)
            &&& !(action is RemoveJournal)
            &&& action matches Action::Finish(Ok(found)) ==> run(settings, Purpose::Apply, applied).1
                == (ActionView::Finish(Ok(found)))
        }),
{
    ended_batches_leave_their_outcome(settings, applied);
    run_resumes(settings, left_journal(settings, applied), replies);
}

/// Whether a reply is what a recovery finds where nothing was disturbed since the batch of a
/// settled journal ended: its commit is the official one, no other journal stands beside it, and
/// neither its worktree nor its reference nor any untracked file is left.
pub open spec fn is_undisturbed(
    settings: BatchSettings,
    journal: JournalView,
    state: TransactionView,
    reply: Reply,
) -> bool {
    match (state.phase, reply) {
        (Phase::Listing, Reply::Names(names)) => is_alone(texts(names@), settings.batch_id),
        (Phase::Reading, Reply::Journal(Some(stored))) => accepted(stored, settings.batch_id)
            == Ok::<JournalView, GitFailure>(journal),
        (Phase::Identifying, Reply::Identity(identity)) => identity == journal.queue_identity,
        (Phase::ConfirmingBase { base }, Reply::Object(actual)) => actual == base,
        (Phase::DiscardingRef { .. }, Reply::Reference(found)) => found is None,
        (Phase::Confirming { .. }, Reply::Commit(facts)) => commit_problem(journal, facts) is None,
        (Phase::PublishBase { base, commit }, Reply::Object(actual)) => actual == commit && commit
            != base,
        (Phase::Residue { .. }, Reply::Untracked { visible, ignored }) => untracked(
            visible@,
            ignored@,
        ) == Some(Seq::<Seq<char>>::empty()),
        (Phase::CleaningRef { .. }, Reply::Reference(found)) => found is None,
        (Phase::Readying, Reply::Done) => true,
        (Phase::DiscardingWorktree { .. }, Reply::Done) => true,
        (Phase::PublishStorage { .. }, Reply::Done) => true,
        (Phase::Locking { .. }, Reply::Done) => true,
        (Phase::Syncing { .. }, Reply::Done) => true,
        (Phase::CleaningWorktree { .. }, Reply::Done) => true,
        (Phase::CleanStorage { .. }, Reply::Done) => true,
        (Phase::FinalStorage, Reply::Done) => true,
        _ => false,
    }
}

/// The number of replies that an undisturbed recovery still waits for.
pub open spec fn awaited(journal: JournalView, phase: Phase) -> int {
    let found = if journal.state is Committed {
        10
    } else {
        4int
    };
    match phase {
        Phase::Readying => found + 4,
        Phase::Listing => found + 3,
        Phase::Reading => found + 2,
        Phase::Identifying => found + 1,
        Phase::Confirming { .. } => 10,
        Phase::PublishStorage { .. } => 9,
        Phase::Locking { .. } => 8,
        Phase::PublishBase { .. } => 7,
        Phase::Residue { .. } => 6,
        Phase::Syncing { .. } => 5,
        Phase::CleaningWorktree { .. } => 4,
        Phase::CleaningRef { .. } => 3,
        Phase::CleanStorage { .. } => 2,
        Phase::ConfirmingBase { .. } => 4,
        Phase::DiscardingWorktree { .. } => 3,
        Phase::DiscardingRef { .. } => 2,
        Phase::FinalStorage => 1,
        _ => 0,
    }
}

#[verifier::spinoff_prover]
#[verifier::rlimit(60)]
proof fn stepped_undisturbed(
    settings: BatchSettings,
    journal: JournalView,
    state: TransactionView,
    reply: Reply,
    outcome: OutcomeView,
)
    requires
        state.purpose == Purpose::Recover,
        is_settled(journal),
        resumes(state, journal),
        is_undisturbed(settings, journal, state, reply),
        outcome_of(journal) == Ok::<OutcomeView, GitFailure>(outcome),
    ensures
        ({
            let (next, action) = stepped(settings, state, reply);
            &&& resumes(next, journal)
            &&& awaited(journal, next.phase) == awaited(journal, state.phase) - 1
            &&& awaited(journal, next.phase) == 0 ==> action == (ActionView::Finish(
                Ok(Some(outcome)),
            ))
        }),
{
}

/// Whether nothing disturbs a recovery.
pub open spec fn all_undisturbed(
    settings: BatchSettings,
    journal: JournalView,
    replies: Seq<Reply>,
) -> bool {
    forall|at: int|
        #![trigger replies[at]]
        0 <= at < replies.len() ==> is_undisturbed(
            settings,
            journal,
            run(settings, Purpose::Recover, replies.take(at)).0,
            replies[at],
        )
}

proof fn run_undisturbed(
    settings: BatchSettings,
    journal: JournalView,
    replies: Seq<Reply>,
    outcome: OutcomeView,
)
    requires
        is_settled(journal),
        all_undisturbed(settings, journal, replies),
        replies.len() <= awaited(journal, Phase::Readying),
        outcome_of(journal) == Ok::<OutcomeView, GitFailure>(outcome),
    ensures
        ({
            let (state, action) = run(settings, Purpose::Recover, replies);
            &&& resumes(state, journal)
            &&& awaited(journal, state.phase) == awaited(journal, Phase::Readying) - replies.len()
            &&& awaited(journal, state.phase) == 0 ==> action == (ActionView::Finish(
                Ok(Some(outcome)),
            ))
        }),
    decreases replies.len(),
{
    if replies.len() > 0 {
        let earlier = replies.drop_last();
        assert forall|at: int|
            #![trigger earlier[at]]
            0 <= at < earlier.len() implies is_undisturbed(
            settings,
            journal,
            run(settings, Purpose::Recover, earlier.take(at)).0,
            earlier[at],
        ) by {
            assert(earlier[at] == replies[at]);
            assert(earlier.take(at) =~= replies.take(at));
        }
        run_undisturbed(settings, journal, earlier, outcome);
        run_is_sound(settings, Purpose::Recover, earlier);
        let at = replies.len() - 1;
        assert(replies.take(at) =~= earlier);
        assert(replies[at] == replies.last());
        stepped_undisturbed(
            settings,
            journal,
            run(settings, Purpose::Recover, earlier).0,
            replies.last(),
            outcome,
        );
    }
}

/// An undisturbed recovery of a batch that ended succeeds with its outcome.
pub proof fn undisturbed_recoveries_succeed(
    settings: BatchSettings,
    applied: Seq<Reply>,
    replies: Seq<Reply>,
)
    requires
        counts_from_one(settings),
        run(settings, Purpose::Apply, applied).1 matches Action::Finish(Ok(Some(outcome))),
        all_undisturbed(settings, left_journal(settings, applied), replies),
        replies.len() == awaited(left_journal(settings, applied), Phase::Readying),
    ensures
        run(settings, Purpose::Recover, replies).1 == run(settings, Purpose::Apply, applied).1,
{
    ended_batches_leave_their_outcome(settings, applied);
    if let Action::Finish(Ok(Some(outcome))) = run(settings, Purpose::Apply, applied).1 {
        run_undisturbed(settings, left_journal(settings, applied), replies, outcome);
    }
}

/// Whether the canonical worktree was brought to a commit.
spec fn was_synced(settings: BatchSettings, purpose: Purpose, replies: Seq<Reply>) -> bool {
    let state = run(settings, purpose, replies).0;
    &&& cleaned(state.phase) matches Some(commit) ==> state.phase is Syncing || was_done(
        settings,
        purpose,
        replies,
        ActionView::SyncCanonical { commit },
    )
    &&& state.phase is FinalStorage ==> (state.journal matches Some(journal) ==> (
    journal.state matches JournalState::Committed { commit, .. } ==> was_done(
        settings,
        purpose,
        replies,
        ActionView::SyncCanonical { commit },
    )))
    &&& purpose == Purpose::Recover && is_discarding(state.phase) ==> (
    state.journal matches Some(journal) ==> journal.state is NoChanges)
    &&& purpose == Purpose::Apply ==> !(state.phase is FinalStorage)
}

#[verifier::spinoff_prover]
#[verifier::rlimit(60)]
proof fn cleaning_comes_last(settings: BatchSettings, state: TransactionView, reply: Reply)
    requires
        stage(state.phase) < 5,
    ensures
        !is_cleaning(stepped(settings, state, reply).0.phase),
        stepped(settings, state, reply).0.phase is FinalStorage ==> is_discarding(state.phase)
            && stepped(settings, state, reply).0.journal == state.journal,
{
}

#[verifier::spinoff_prover]
#[verifier::rlimit(60)]
proof fn cleaning_follows(settings: BatchSettings, state: TransactionView, reply: Reply)
    requires
        stage(state.phase) == 5,
    ensures
        ({
            let next = stepped(settings, state, reply).0;
            &&& cleaned(next.phase) matches Some(commit) ==> next.phase is Syncing || (cleaned(
                state.phase,
            ) == Some(commit) && (state.phase is Syncing ==> reply is Done))
            &&& next.phase is FinalStorage ==> next.journal == state.journal
                && state.phase is CleanStorage
        }),
{
}

/// The phases in which a recovery ends a batch without changes.
spec fn is_discarding(phase: Phase) -> bool {
    phase is ConfirmingBase || phase is DiscardingWorktree || phase is DiscardingRef
        || phase is InspectingRef || phase is ResolvingRef || phase is DeletingRef
}

#[verifier::spinoff_prover]
#[verifier::rlimit(60)]
proof fn discarding_follows(settings: BatchSettings, state: TransactionView, reply: Reply)
    requires
        state.purpose == Purpose::Recover,
        before_reading(state.phase) || is_recovering(state.phase) || state.phase is Finished,
    ensures
        ({
            let next = stepped(settings, state, reply).0;
            is_discarding(next.phase) ==> next.journal == state.journal && (is_discarding(
                state.phase,
            ) || (state.journal matches Some(journal)
                && journal.state is NoChanges))
        }),
{
}

#[verifier::spinoff_prover]
#[verifier::rlimit(60)]
proof fn ends_follow(settings: BatchSettings, state: TransactionView, reply: Reply)
    ensures
        stepped(settings, state, reply).1 matches Action::Finish(Ok(Some(outcome))) ==> (
        outcome matches OutcomeView::Committed { commit, .. } ==> state.phase == (
        Phase::CleanStorage { commit }) || (state.phase is FinalStorage && (
        state.journal matches Some(journal) && outcome_of(journal) == Ok::<OutcomeView, GitFailure>(
            outcome,
        )))),
{
}

proof fn run_syncs(settings: BatchSettings, purpose: Purpose, replies: Seq<Reply>)
    requires
        purpose != Purpose::Abort,
    ensures
        was_synced(settings, purpose, replies),
    decreases replies.len(),
{
    if replies.len() > 0 {
        let earlier = replies.drop_last();
        run_syncs(settings, purpose, earlier);
        run_is_sound(settings, purpose, earlier);
        let (before, ordered) = run(settings, purpose, earlier);
        if stage(before.phase) < 5 {
            cleaning_comes_last(settings, before, replies.last());
        } else {
            cleaning_follows(settings, before, replies.last());
        }
        if purpose == Purpose::Recover {
            run_recovers(settings, earlier);
            discarding_follows(settings, before, replies.last());
        } else {
            run_decides(settings, replies);
        }
        if let Some(commit) = cleaned(before.phase) {
            let action = ActionView::SyncCanonical { commit };
            if was_done(settings, purpose, earlier, action) || (ordered == action
                && replies.last() is Done) {
                done_stays(settings, purpose, replies, action);
            }
        }
    }
}

/// A batch is given out as committed only after the canonical worktree was brought to its commit,
/// be it applied or recovered.
pub proof fn committed_batches_are_checked_out(
    settings: BatchSettings,
    purpose: Purpose,
    replies: Seq<Reply>,
)
    requires
        purpose != Purpose::Abort,
    ensures
        run(settings, purpose, replies).1 matches Action::Finish(Ok(Some(outcome))) ==> (
        outcome matches OutcomeView::Committed { commit, .. } ==> was_done(
            settings,
            purpose,
            replies,
            ActionView::SyncCanonical { commit },
        )),
{
    if replies.len() > 0 {
        let earlier = replies.drop_last();
        run_syncs(settings, purpose, earlier);
        let before = run(settings, purpose, earlier).0;
        ends_follow(settings, before, replies.last());
        if let Action::Finish(Ok(Some(outcome))) = run(settings, purpose, replies).1 {
            if let OutcomeView::Committed { commit, .. } = outcome {
                done_stays(settings, purpose, replies, ActionView::SyncCanonical { commit });
            }
        }
    }
}

} // verus!
