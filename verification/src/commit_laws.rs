//! What a run to apply a batch works on: the moves that it counts, the commit that it builds on,
//! the commit that it makes, and when it cannot fail.
use crate::apply::{error_code, AppliedFileMove, PathView};
use crate::batch::{
    stage, stepped, Action, ActionView, BatchSettings, Phase, Purpose, Reply, TransactionView,
};
use crate::batch_laws::{announced, cleaned, is_sound, published, run, run_decides, run_is_sound};
use crate::batch_model::{kept_tree, run_keeps_standing};
use crate::change_laws::{are_moves, only_moves_explain_deletions};
use crate::changes::{counted, reduced, staged_from, Followed, Staged};
use crate::commit_message::commit_problem;
use crate::fields::split;
use crate::git_error::GitTransactionError;
use crate::git_text::{printed_object, ObjectId};
use crate::journal::claims_problem;
use vstd::prelude::*;

verus! {

/// The moves of an applied claim.
pub open spec fn moves_in(moves: Seq<AppliedFileMove>) -> Seq<AppliedFileMove<PathView>> {
    Seq::new(
        moves.len(),
        |i: int|
            AppliedFileMove { source: moves[i].source@, destination: moves[i].destination@ },
    )
}

/// The moves that were replied for the claims that became successes: a claim is one once its tree
/// was staged. They stand one behind the other, in the order of the claims.
pub open spec fn moves_of_successes(settings: BatchSettings, replies: Seq<Reply>) -> Seq<
    AppliedFileMove<PathView>,
>
    decreases replies.len(),
{
    if replies.len() == 0 {
        Seq::empty()
    } else {
        let earlier = moves_of_successes(settings, replies.drop_last());
        let staged = run(settings, Purpose::Apply, replies.drop_last()).1 is StageTree
            && replies.last() is Object;
        if staged && replies.len() > 1 {
            match replies[replies.len() - 2] {
                Reply::Applied(moves) => earlier + moves_in(moves@),
                _ => earlier,
            }
        } else {
            earlier
        }
    }
}

spec fn keeps_moves(settings: BatchSettings, replies: Seq<Reply>) -> bool {
    let (state, action) = run(settings, Purpose::Apply, replies);
    &&& state.moves == moves_of_successes(settings, replies)
    &&& action is StageTree <==> state.phase is Staging
    &&& action is ReadDifference <==> state.phase is Counting
    &&& state.phase is Applying || state.phase is Staging || state.phase is Resetting
        ==> state.next < settings.claims@.len()
    &&& state.phase is Staging ==> replies.len() > 0 && (replies.last() matches Reply::Applied(
        moves,
    ) && state.staged == moves_in(moves@))
}

#[verifier::spinoff_prover]
#[verifier::rlimit(80)]
proof fn step_keeps_moves(settings: BatchSettings, replies: Seq<Reply>)
    requires
        replies.len() > 0,
        keeps_moves(settings, replies.drop_last()),
        run(settings, Purpose::Apply, replies.drop_last()).0.purpose == Purpose::Apply,
        replies.len() > 1 ==> replies.drop_last().last() == replies[replies.len() - 2],
        replies.last() matches Reply::Applied(moves) ==> crate::apply::move_views(moves@)
            == moves_in(moves@),
    ensures
        keeps_moves(settings, replies),
{
    assert(settings.claims.len() == settings.claims@.len());
}

proof fn run_keeps_moves(settings: BatchSettings, replies: Seq<Reply>)
    ensures
        keeps_moves(settings, replies),
    decreases replies.len(),
{
    if replies.len() > 0 {
        run_keeps_moves(settings, replies.drop_last());
        run_is_sound(settings, Purpose::Apply, replies.drop_last());
        if let Reply::Applied(moves) = replies.last() {
            assert(crate::apply::move_views(moves@) =~= moves_in(moves@));
        }
        step_keeps_moves(settings, replies);
    }
}

/// The difference of a batch is counted with exactly the moves of its successes, in claim order.
/// Where these moves explain every deletion that it lists, the batch goes on to its trial build;
/// only where they do not is it refused as a deletion.
pub proof fn moves_of_successes_explain_deletions(
    settings: BatchSettings,
    replies: Seq<Reply>,
    output: Vec<u8>,
    files: Seq<Followed<PathView>>,
    added: Seq<PathView>,
    modified: int,
    deleted: Seq<PathView>,
)
    requires
        run(settings, Purpose::Apply, replies).1 is ReadDifference,
        reduced(moves_of_successes(settings, replies)) == Some(files),
        staged_from(
            split(output@, 0u8),
            0,
            (Staged { added: Seq::empty(), modified: 0, deleted: Seq::empty() }),
        ) == Some(Staged { added, modified, deleted }),
        added.no_duplicates(),
    ensures
        run(settings, Purpose::Apply, replies).0.moves == moves_of_successes(settings, replies),
        ({
            let (next, action) = run(settings, Purpose::Apply, replies.push(Reply::Output(output)));
            &&& are_moves(files, deleted, 0, added) ==> action is TrialBuild && (
            next.phase matches Phase::Building { stats, .. } && (added.len() - deleted.len()
                <= usize::MAX ==> stats.added == added.len() - deleted.len()) && (0 <= modified
                + deleted.len() <= usize::MAX ==> stats.modified == modified + deleted.len())
                && stats.deleted == 0)
            &&& !are_moves(files, deleted, 0, added) ==> action == ActionView::Finish(
                Err(GitTransactionError::PhysicalDeletion),
            )
        }),
{
    run_keeps_moves(settings, replies);
    run_is_sound(settings, Purpose::Apply, replies);
    let moves = moves_of_successes(settings, replies);
    only_moves_explain_deletions(output@, moves, files, added, modified, deleted);
    let more = replies.push(Reply::Output(output));
    assert(more.drop_last() =~= replies);
    assert(more.last() == Reply::Output(output));
    if are_moves(files, deleted, 0, added) {
        deletions_were_added(files, deleted, added);
    }
}

proof fn deletions_were_added(
    files: Seq<Followed<PathView>>,
    deleted: Seq<PathView>,
    added: Seq<PathView>,
)
    requires
        are_moves(files, deleted, 0, added),
        added.no_duplicates(),
    ensures
        deleted.len() <= added.len(),
{
    let gone = Seq::new(
        deleted.len(),
        |i: int| crate::change_laws::gone_to(files, deleted[i])->0,
    );
    assert forall|i: int, j: int| 0 <= i < gone.len() && 0 <= j < gone.len() && i != j implies gone[i]
        != gone[j] by {
        let (low, high) = if i < j {
            (i, j)
        } else {
            (j, i)
        };
        assert(crate::change_laws::gone_to(files, deleted[low])
            != crate::change_laws::gone_to(files, deleted[high]));
        assert(crate::change_laws::gone_to(files, deleted[low]) is Some);
        assert(crate::change_laws::gone_to(files, deleted[high]) is Some);
    }
    assert(gone.to_set().subset_of(added.to_set())) by {
        assert forall|path: PathView| gone.to_set().contains(path) implies added.to_set().contains(
            path,
        ) by {
            let i = choose|i: int| 0 <= i < gone.len() && gone[i] == path;
            assert(added.contains(crate::change_laws::gone_to(files, deleted[i])->0));
        }
    }
    gone.unique_seq_to_set();
    added.unique_seq_to_set();
    vstd::set_lib::lemma_len_subset(gone.to_set(), added.to_set());
}

/// The object that was last replied for the official branch.
pub open spec fn official_seen(settings: BatchSettings, replies: Seq<Reply>) -> Option<ObjectId>
    decreases replies.len(),
{
    if replies.len() == 0 {
        None
    } else {
        match (run(settings, Purpose::Apply, replies.drop_last()).1, replies.last()) {
            (Action::ResolveOfficial, Reply::Object(object)) => Some(object),
            _ => official_seen(settings, replies.drop_last()),
        }
    }
}

/// The object that was replied for the commit of a batch.
pub open spec fn commit_made(settings: BatchSettings, replies: Seq<Reply>) -> Option<ObjectId>
    decreases replies.len(),
{
    if replies.len() == 0 {
        None
    } else {
        match (run(settings, Purpose::Apply, replies.drop_last()).1, replies.last()) {
            (Action::CommitTree { .. }, Reply::Object(object)) => Some(object),
            _ => commit_made(settings, replies.drop_last()),
        }
    }
}

/// The commit that a phase builds on, before it is made official.
spec fn base_in(phase: Phase) -> Option<ObjectId> {
    match phase {
        Phase::CheckingWorktree { base } => Some(base),
        Phase::Naming { base } => Some(base),
        Phase::Preparing { base } => Some(base),
        Phase::Adding { base } => Some(base),
        Phase::Rooting { base } => Some(base),
        Phase::Applying { base, .. } => Some(base),
        Phase::Staging { base } => Some(base),
        Phase::Resetting { base, .. } => Some(base),
        Phase::Emptying { base } => Some(base),
        Phase::EmptyWorktree { base } => Some(base),
        Phase::EmptyOfficial { base } => Some(base),
        Phase::Counting { base, .. } => Some(base),
        Phase::Building { base, .. } => Some(base),
        Phase::Inspecting { base, .. } => Some(base),
        Phase::Committing { base } => Some(base),
        Phase::Referring { base, .. } => Some(base),
        Phase::Recording { base, .. } => Some(base),
        Phase::Confirming { base, .. } => Some(base),
        Phase::Announcing { base, .. } => Some(base),
        Phase::Starting { base, .. } => Some(base),
        Phase::PublishStorage { base, .. } => Some(base),
        Phase::Locking { base, .. } => Some(base),
        Phase::PublishBase { base, .. } => Some(base),
        Phase::PublishCanonical { base, .. } => Some(base),
        Phase::PublishRef { base, .. } => Some(base),
        Phase::SwapStorage { base, .. } => Some(base),
        Phase::Swapping { base, .. } => Some(base),
        _ => None,
    }
}

/// The commit of a phase behind the one that made it.
spec fn commit_in(phase: Phase) -> Option<ObjectId> {
    match phase {
        Phase::Referring { commit, .. } => Some(commit),
        _ => match (announced(phase), published(phase), cleaned(phase)) {
            (Some((_, commit)), _, _) => Some(commit),
            (_, Some((_, commit)), _) => Some(commit),
            (_, _, Some(commit)) => Some(commit),
            _ => None,
        },
    }
}

/// Whether an action belongs to the phase that orders it.
spec fn is_ordered_in(action: ActionView, phase: Phase) -> bool {
    &&& action is ResolveOfficial ==> phase is ComparingBase || phase is Pinning
        || phase is EmptyOfficial || phase is PublishBase || phase is ConfirmingBase
        || phase is RecoverBase
    &&& phase is Pinning || phase is PublishBase || phase is EmptyOfficial ==> action
        is ResolveOfficial
    &&& action is CommitTree <==> phase is Committing
    &&& action matches Action::AddWorktree { base } ==> phase == (Phase::Adding { base })
    &&& action matches Action::ReadDifference { base } ==> (phase matches Phase::Counting {
        base: counted,
        ..
    } && counted == base)
    &&& action matches Action::CommitTree { base, .. } ==> phase == (Phase::Committing { base })
    &&& action matches Action::CreateTransactionRef { commit } ==> (phase matches Phase::Referring {
        commit: made,
        ..
    } && made == commit)
    &&& action matches Action::BeforePublish { base, commit } ==> phase == (Phase::Announcing {
        base,
        commit,
    })
    &&& action matches Action::CompareAndSwap { base, commit } ==> phase == (Phase::Swapping {
        base,
        commit,
    })
    &&& action matches Action::SyncCanonical { commit } ==> phase == (Phase::Syncing { commit })
    &&& action matches Action::InspectCommit { commit } ==> (phase matches Phase::Confirming {
        commit: confirmed,
        ..
    } && confirmed == commit)
}

/// What was last replied for the official branch, with one more reply.
spec fn seen_next(action: ActionView, reply: Reply, before: Option<ObjectId>) -> Option<ObjectId> {
    match (action, reply) {
        (Action::ResolveOfficial, Reply::Object(object)) => Some(object),
        _ => before,
    }
}

/// What was replied for the commit, with one more reply.
spec fn made_next(action: ActionView, reply: Reply, before: Option<ObjectId>) -> Option<ObjectId> {
    match (action, reply) {
        (Action::CommitTree { .. }, Reply::Object(object)) => Some(object),
        _ => before,
    }
}

/// Whether a transaction goes by what was replied for the official branch and for its commit.
spec fn holds_commits(
    state: TransactionView,
    action: ActionView,
    official: Option<ObjectId>,
    made: Option<ObjectId>,
) -> bool {
    &&& is_ordered_in(action, state.phase)
    &&& !(state.phase is RecoverBase)
    &&& !(state.phase is FinalStorage)
    &&& base_in(state.phase) is Some ==> official == base_in(state.phase)
    &&& commit_in(state.phase) is Some ==> made == commit_in(state.phase)
    &&& action matches Action::Finish(
        Ok(Some(crate::journal::BatchCommitOutcome::Committed { commit, .. })),
    ) ==> made == Some(commit)
}

spec fn keeps_commits(settings: BatchSettings, replies: Seq<Reply>) -> bool {
    let (state, action) = run(settings, Purpose::Apply, replies);
    holds_commits(
        state,
        action,
        official_seen(settings, replies),
        commit_made(settings, replies),
    )
}

#[verifier::spinoff_prover]
#[verifier::rlimit(60)]
proof fn commits_in_discovering(
    settings: BatchSettings,
    state: TransactionView,
    action: ActionView,
    reply: Reply,
    official: Option<ObjectId>,
    made: Option<ObjectId>,
)
    requires
        stage(state.phase) == 0,
        is_sound(settings, state, action),
        state.purpose == Purpose::Apply,
        holds_commits(state, action, official, made),
    ensures
        ({
            let (next, ordered) = stepped(settings, state, reply);
            holds_commits(
                next,
                ordered,
                seen_next(action, reply, official),
                made_next(action, reply, made),
            )
        }),
{
}

#[verifier::spinoff_prover]
#[verifier::rlimit(60)]
proof fn commits_in_discarding(
    settings: BatchSettings,
    state: TransactionView,
    action: ActionView,
    reply: Reply,
    official: Option<ObjectId>,
    made: Option<ObjectId>,
)
    requires
        stage(state.phase) == 1,
        is_sound(settings, state, action),
        state.purpose == Purpose::Apply,
        holds_commits(state, action, official, made),
    ensures
        ({
            let (next, ordered) = stepped(settings, state, reply);
            holds_commits(
                next,
                ordered,
                seen_next(action, reply, official),
                made_next(action, reply, made),
            )
        }),
{
}

#[verifier::spinoff_prover]
#[verifier::rlimit(60)]
proof fn commits_in_preparing(
    settings: BatchSettings,
    state: TransactionView,
    action: ActionView,
    reply: Reply,
    official: Option<ObjectId>,
    made: Option<ObjectId>,
)
    requires
        stage(state.phase) == 2,
        is_sound(settings, state, action),
        state.purpose == Purpose::Apply,
        holds_commits(state, action, official, made),
    ensures
        ({
            let (next, ordered) = stepped(settings, state, reply);
            holds_commits(
                next,
                ordered,
                seen_next(action, reply, official),
                made_next(action, reply, made),
            )
        }),
{
}

#[verifier::spinoff_prover]
#[verifier::rlimit(60)]
proof fn commits_in_applying(
    settings: BatchSettings,
    state: TransactionView,
    action: ActionView,
    reply: Reply,
    official: Option<ObjectId>,
    made: Option<ObjectId>,
)
    requires
        stage(state.phase) == 3,
        is_sound(settings, state, action),
        state.purpose == Purpose::Apply,
        holds_commits(state, action, official, made),
    ensures
        ({
            let (next, ordered) = stepped(settings, state, reply);
            holds_commits(
                next,
                ordered,
                seen_next(action, reply, official),
                made_next(action, reply, made),
            )
        }),
{
}

#[verifier::spinoff_prover]
#[verifier::rlimit(60)]
proof fn commits_in_committing(
    settings: BatchSettings,
    state: TransactionView,
    action: ActionView,
    reply: Reply,
    official: Option<ObjectId>,
    made: Option<ObjectId>,
)
    requires
        stage(state.phase) == 4,
        is_sound(settings, state, action),
        state.purpose == Purpose::Apply,
        holds_commits(state, action, official, made),
    ensures
        ({
            let (next, ordered) = stepped(settings, state, reply);
            holds_commits(
                next,
                ordered,
                seen_next(action, reply, official),
                made_next(action, reply, made),
            )
        }),
{
}

#[verifier::spinoff_prover]
#[verifier::rlimit(60)]
proof fn commits_in_publishing(
    settings: BatchSettings,
    state: TransactionView,
    action: ActionView,
    reply: Reply,
    official: Option<ObjectId>,
    made: Option<ObjectId>,
)
    requires
        stage(state.phase) == 5,
        is_sound(settings, state, action),
        state.purpose == Purpose::Apply,
        holds_commits(state, action, official, made),
    ensures
        ({
            let (next, ordered) = stepped(settings, state, reply);
            holds_commits(
                next,
                ordered,
                seen_next(action, reply, official),
                made_next(action, reply, made),
            )
        }),
{
}

proof fn run_keeps_commits(settings: BatchSettings, replies: Seq<Reply>)
    ensures
        keeps_commits(settings, replies),
    decreases replies.len(),
{
    if replies.len() > 0 {
        let earlier = replies.drop_last();
        run_keeps_commits(settings, earlier);
        run_is_sound(settings, Purpose::Apply, earlier);
        let (state, action) = run(settings, Purpose::Apply, earlier);
        let official = official_seen(settings, earlier);
        let made = commit_made(settings, earlier);
        let reply = replies.last();
        if stage(state.phase) == 0 {
            commits_in_discovering(settings, state, action, reply, official, made);
        } else if stage(state.phase) == 1 {
            commits_in_discarding(settings, state, action, reply, official, made);
        } else if stage(state.phase) == 2 {
            commits_in_preparing(settings, state, action, reply, official, made);
        } else if stage(state.phase) == 3 {
            commits_in_applying(settings, state, action, reply, official, made);
        } else if stage(state.phase) == 4 {
            commits_in_committing(settings, state, action, reply, official, made);
        } else {
            commits_in_publishing(settings, state, action, reply, official, made);
        }
    }
}

/// A batch builds on the official commit and publishes its own: the worktree is added at the
/// commit that the official branch was seen at, the difference is taken against it, the commit is
/// made on it, and the branch advances from it. What is kept, announced, made official, checked
/// out and given as the outcome is the very commit that was made.
pub proof fn batches_advance_the_branch_by_their_commit(
    settings: BatchSettings,
    replies: Seq<Reply>,
)
    ensures
        ({
            let action = run(settings, Purpose::Apply, replies).1;
            let official = official_seen(settings, replies);
            let made = commit_made(settings, replies);
            &&& action matches Action::AddWorktree { base } ==> official == Some(base)
            &&& action matches Action::ReadDifference { base } ==> official == Some(base)
            &&& action matches Action::CommitTree { base, .. } ==> official == Some(base)
            &&& action matches Action::CreateTransactionRef { commit } ==> made == Some(commit)
            &&& action matches Action::InspectCommit { commit } ==> made == Some(commit)
            &&& action matches Action::BeforePublish { base, commit } ==> official == Some(base)
                && made == Some(commit)
            &&& action matches Action::CompareAndSwap { base, commit } ==> official == Some(base)
                && made == Some(commit)
            &&& action matches Action::SyncCanonical { commit } ==> made == Some(commit)
            &&& action matches Action::Finish(
                Ok(Some(crate::journal::BatchCommitOutcome::Committed { commit, .. })),
            ) ==> made == Some(commit)
        }),
{
    run_keeps_commits(settings, replies);
}

/// Whether the claims of a batch are its own, are no two of one request, and stand in queue order.
pub open spec fn are_claimed(settings: BatchSettings) -> bool {
    &&& settings.claims@.len() > 0
    &&& forall|i: int|
        0 <= i < settings.claims@.len() ==> (#[trigger] settings.claims@[i]).token.batch_id
            == settings.batch_id && settings.claims@[i].sequence is Some
    &&& forall|i: int, j: int|
        0 <= i < j < settings.claims@.len() ==> (#[trigger] settings.claims@[i]).token.request_id
            != (#[trigger] settings.claims@[j]).token.request_id
            && settings.claims@[i].sequence->0 < settings.claims@[j].sequence->0
}

/// Whether a reply is what a repository answers in which nothing goes wrong: no other
/// journal and no earlier attempt is there, the queue owns the claims, the canonical worktree is
/// clean, the official branch stays where it is until it is advanced, and each order is carried
/// out. A claim may be refused for a fault of its request.
pub open spec fn is_answered_well(
    settings: BatchSettings,
    state: TransactionView,
    action: ActionView,
    reply: Reply,
    official: ObjectId,
    kept: Option<ObjectId>,
    made: Option<ObjectId>,
) -> bool {
    match (action, reply) {
        (Action::ListJournals, Reply::Names(names)) => names@.len() == 0,
        (Action::ReadJournal, Reply::Journal(stored)) => stored is None,
        (Action::InspectClaims, Reply::Ownership(ownership)) => ownership@.len()
            == settings.claims@.len() && forall|i: int|
            0 <= i < ownership@.len() ==> #[trigger] ownership@[i] is None,
        (Action::InspectCanonical, Reply::Output(status)) => status@.len() == 0,
        (Action::ResolveOfficial, Reply::Object(object)) => object == official,
        (Action::InspectWorktree, Reply::Exists(found)) => !found,
        (Action::IdentifyQueue, Reply::Identity(_)) => true,
        (Action::WriteJournal(_), Reply::Done) => true,
        (Action::AddWorktree { .. }, Reply::Done) => true,
        (Action::ResolveTree, Reply::Object(_)) => true,
        (Action::ApplyClaim { .. }, Reply::Applied(_)) => true,
        (Action::ApplyClaim { .. }, Reply::Refused(error)) => error_code(error@) is Some,
        (Action::StageTree, Reply::Object(_)) => true,
        (Action::ResetWorktree { .. }, Reply::Done) => true,
        (Action::ReadDifference { .. }, Reply::Output(output)) => counted(
            output@,
            state.moves,
        ) is Ok,
        (Action::TrialBuild, Reply::Done) => true,
        (Action::InspectPrepared, Reply::Prepared { unstaged, visible, ignored, tree }) => {
            &&& unstaged@.len() == 0
            &&& visible@.len() == 0
            &&& ignored@.len() == 0
            &&& printed_object(tree@) is Some
            &&& printed_object(tree@) == kept
        },
        (Action::CommitTree { .. }, Reply::Object(_)) => true,
        (Action::CreateTransactionRef { .. }, Reply::Done) => true,
        (Action::InspectCommit { .. }, Reply::Commit(facts)) => state.journal matches Some(journal)
            && commit_problem(journal, facts) is None,
        (Action::BeforePublish { .. }, Reply::Done) => true,
        (Action::ValidateStorage, Reply::Done) => true,
        (Action::LockCanonical, Reply::Done) => true,
        (Action::ResolveTransactionRef, Reply::Reference(found)) => found is Some && found
            == made,
        (Action::CompareAndSwap { .. }, Reply::Done) => true,
        (Action::SyncCanonical { .. }, Reply::Done) => true,
        (Action::RemoveWorktree, Reply::Done) => true,
        (Action::DeleteTransactionRef { .. }, Reply::Done) => true,
        _ => false,
    }
}

/// Whether a reply of a run is what a repository answers in which nothing goes wrong. What is built
/// stays at the tree of the last success, and what refers to the batch refers to its commit.
pub open spec fn goes_well(
    settings: BatchSettings,
    before: Seq<Reply>,
    reply: Reply,
    official: ObjectId,
) -> bool {
    let (state, action) = run(settings, Purpose::Apply, before);
    is_answered_well(
        settings,
        state,
        action,
        reply,
        official,
        kept_tree(settings, before),
        commit_made(settings, before),
    )
}

/// Whether all replies of a run go well, and the moves of the successes fit together throughout.
pub open spec fn all_go_well(
    settings: BatchSettings,
    replies: Seq<Reply>,
    official: ObjectId,
) -> bool {
    &&& forall|at: int|
        0 <= at < replies.len() ==> goes_well(
            settings,
            #[trigger] replies.take(at),
            replies[at],
            official,
        )
    &&& forall|at: int|
        0 <= at <= replies.len() ==> reduced(
            moves_of_successes(settings, #[trigger] replies.take(at)),
        ) is Some
}

/// What a run on a repository in which nothing goes wrong waits for.
spec fn waits(phase: Phase, action: ActionView) -> bool {
    match phase {
        Phase::Listing => action is ListJournals,
        Phase::Reading => action is ReadJournal,
        Phase::CheckingClaims => action is InspectClaims,
        Phase::CheckingCanonical => action is InspectCanonical,
        Phase::Pinning => action is ResolveOfficial,
        Phase::CheckingWorktree { .. } => action is InspectWorktree,
        Phase::Naming { .. } => action is IdentifyQueue,
        Phase::Preparing { .. } => action is WriteJournal,
        Phase::Adding { .. } => action is AddWorktree,
        Phase::Rooting { .. } => action is ResolveTree,
        Phase::Applying { .. } => action is ApplyClaim,
        Phase::Staging { .. } => action is StageTree,
        Phase::Resetting { .. } => action is ResetWorktree,
        Phase::Emptying { .. } => action is WriteJournal,
        Phase::EmptyWorktree { .. } => action is RemoveWorktree,
        Phase::EmptyOfficial { .. } => action is ResolveOfficial,
        Phase::EmptyStorage => action is ValidateStorage,
        Phase::Counting { .. } => action is ReadDifference,
        Phase::Building { .. } => action is TrialBuild,
        Phase::Inspecting { .. } => action is InspectPrepared,
        Phase::Committing { .. } => action is CommitTree,
        Phase::Referring { .. } => action is CreateTransactionRef,
        Phase::Recording { .. } => action is WriteJournal,
        Phase::Confirming { .. } => action is InspectCommit,
        Phase::Announcing { .. } => action is BeforePublish,
        Phase::Starting { .. } => action is WriteJournal,
        Phase::PublishStorage { .. } => action is ValidateStorage,
        Phase::Locking { .. } => action is LockCanonical,
        Phase::PublishBase { .. } => action is ResolveOfficial,
        Phase::PublishCanonical { .. } => action is InspectCanonical,
        Phase::PublishRef { .. } => action is ResolveTransactionRef,
        Phase::SwapStorage { .. } => action is ValidateStorage,
        Phase::Swapping { .. } => action is CompareAndSwap,
        Phase::Syncing { .. } => action is SyncCanonical,
        Phase::CleaningWorktree { .. } => action is RemoveWorktree,
        Phase::CleaningRef { .. } => action is ResolveTransactionRef,
        Phase::DeletingOld { .. } => action is DeleteTransactionRef,
        Phase::CleanStorage { .. } => action is ValidateStorage,
        Phase::Finished => action matches Action::Finish(Ok(_)),
        _ => false,
    }
}

/// What holds of a transaction on a repository in which nothing goes wrong.
spec fn is_well(state: TransactionView, action: ActionView, official: ObjectId) -> bool {
    &&& waits(state.phase, action)
    &&& base_in(state.phase) is Some ==> base_in(state.phase) == Some(official)
    &&& state.phase is Resetting ==> (state.refused matches Some(failure) && error_code(
        failure,
    ) is Some)
}

proof fn claims_are_accepted(settings: BatchSettings, ownership: Seq<Option<String>>, next: int)
    requires
        are_claimed(settings),
        ownership.len() == settings.claims@.len(),
        forall|i: int| 0 <= i < ownership.len() ==> #[trigger] ownership[i] is None,
        0 <= next,
    ensures
        claims_problem(settings.batch_id, settings.claims@, ownership, next) is None,
    decreases settings.claims@.len() - next,
{
    if next < settings.claims@.len() {
        claims_are_accepted(settings, ownership, next + 1);
        assert(ownership[next] is None);
        assert(settings.claims@[next].sequence is Some);
        if next > 0 {
            assert(settings.claims@[next - 1].sequence->0 < settings.claims@[next].sequence->0);
        }
    }
}

proof fn nothing_is_untracked(visible: Seq<u8>, ignored: Seq<u8>)
    requires
        visible.len() == 0,
        ignored.len() == 0,
    ensures
        crate::git_output::untracked(visible, ignored) == Some(Seq::<Seq<char>>::empty()),
{
    reveal_with_fuel(crate::fields::split_from, 2);
    reveal_with_fuel(crate::git_output::paths_among, 3);
    assert(split(visible, 0u8)[0].len() == 0);
    assert(split(ignored, 0u8)[0].len() == 0);
}

/// What is known of a transaction beside where it stands.
spec fn is_informed(
    settings: BatchSettings,
    state: TransactionView,
    reply: Reply,
    kept: Option<ObjectId>,
    made: Option<ObjectId>,
) -> bool {
    &&& state.phase is Applying || state.phase is Staging || state.phase is Resetting
        ==> state.next < settings.claims@.len()
    &&& state.phase is Rooting ==> settings.claims@.len() > 0 && state.next == 0
    &&& commit_in(state.phase) is Some ==> made == commit_in(state.phase)
    &&& state.phase matches Phase::Inspecting { tree, .. } ==> kept == Some(tree)
    &&& reduced(stepped(settings, state, reply).0.moves) is Some
    &&& reply matches Reply::Ownership(ownership) ==> (ownership@.len() == settings.claims@.len() && (
    forall|i: int| 0 <= i < ownership@.len() ==> #[trigger] ownership@[i] is None)
        ==> claims_problem(settings.batch_id, settings.claims@, ownership@, 0) is None)
    &&& reply matches Reply::Prepared { unstaged, visible, ignored, tree } ==> (visible@.len() == 0
        && ignored@.len() == 0 ==> crate::git_output::untracked(visible@, ignored@) == Some(
        Seq::<Seq<char>>::empty(),
    ))
}

#[verifier::spinoff_prover]
#[verifier::rlimit(60)]
proof fn well_in_discovering(
    settings: BatchSettings,
    state: TransactionView,
    action: ActionView,
    reply: Reply,
    official: ObjectId,
    kept: Option<ObjectId>,
    made: Option<ObjectId>,
)
    requires
        stage(state.phase) == 0,
        is_sound(settings, state, action),
        state.purpose == Purpose::Apply,
        is_well(state, action, official),
        is_answered_well(settings, state, action, reply, official, kept, made),
        is_informed(settings, state, reply, kept, made),
    ensures
        is_well(
            stepped(settings, state, reply).0,
            stepped(settings, state, reply).1,
            official,
        ),
{
    assert(settings.claims.len() == settings.claims@.len());
}

#[verifier::spinoff_prover]
#[verifier::rlimit(60)]
proof fn well_in_preparing(
    settings: BatchSettings,
    state: TransactionView,
    action: ActionView,
    reply: Reply,
    official: ObjectId,
    kept: Option<ObjectId>,
    made: Option<ObjectId>,
)
    requires
        stage(state.phase) == 2,
        is_sound(settings, state, action),
        state.purpose == Purpose::Apply,
        is_well(state, action, official),
        is_answered_well(settings, state, action, reply, official, kept, made),
        is_informed(settings, state, reply, kept, made),
    ensures
        is_well(
            stepped(settings, state, reply).0,
            stepped(settings, state, reply).1,
            official,
        ),
{
    assert(settings.claims.len() == settings.claims@.len());
}

#[verifier::spinoff_prover]
#[verifier::rlimit(60)]
proof fn well_in_applying(
    settings: BatchSettings,
    state: TransactionView,
    action: ActionView,
    reply: Reply,
    official: ObjectId,
    kept: Option<ObjectId>,
    made: Option<ObjectId>,
)
    requires
        stage(state.phase) == 3,
        is_sound(settings, state, action),
        state.purpose == Purpose::Apply,
        is_well(state, action, official),
        is_answered_well(settings, state, action, reply, official, kept, made),
        is_informed(settings, state, reply, kept, made),
    ensures
        is_well(
            stepped(settings, state, reply).0,
            stepped(settings, state, reply).1,
            official,
        ),
{
    assert(settings.claims.len() == settings.claims@.len());
}

#[verifier::spinoff_prover]
#[verifier::rlimit(60)]
proof fn well_in_committing(
    settings: BatchSettings,
    state: TransactionView,
    action: ActionView,
    reply: Reply,
    official: ObjectId,
    kept: Option<ObjectId>,
    made: Option<ObjectId>,
)
    requires
        stage(state.phase) == 4,
        is_sound(settings, state, action),
        state.purpose == Purpose::Apply,
        is_well(state, action, official),
        is_answered_well(settings, state, action, reply, official, kept, made),
        is_informed(settings, state, reply, kept, made),
    ensures
        is_well(
            stepped(settings, state, reply).0,
            stepped(settings, state, reply).1,
            official,
        ),
{
    assert(settings.claims.len() == settings.claims@.len());
}

#[verifier::spinoff_prover]
#[verifier::rlimit(60)]
proof fn well_in_publishing(
    settings: BatchSettings,
    state: TransactionView,
    action: ActionView,
    reply: Reply,
    official: ObjectId,
    kept: Option<ObjectId>,
    made: Option<ObjectId>,
)
    requires
        stage(state.phase) == 5,
        is_sound(settings, state, action),
        state.purpose == Purpose::Apply,
        is_well(state, action, official),
        is_answered_well(settings, state, action, reply, official, kept, made),
        is_informed(settings, state, reply, kept, made),
    ensures
        is_well(
            stepped(settings, state, reply).0,
            stepped(settings, state, reply).1,
            official,
        ),
{
    assert(settings.claims.len() == settings.claims@.len());
}

proof fn run_is_well(settings: BatchSettings, replies: Seq<Reply>, official: ObjectId)
    requires
        are_claimed(settings),
        all_go_well(settings, replies, official),
    ensures
        is_well(
            run(settings, Purpose::Apply, replies).0,
            run(settings, Purpose::Apply, replies).1,
            official,
        ),
    decreases replies.len(),
{
    if replies.len() > 0 {
        let earlier = replies.drop_last();
        let last = replies.len() - 1;
        assert(replies.take(last) =~= earlier);
        assert(replies.take(replies.len() as int) =~= replies);
        assert(goes_well(settings, replies.take(last), replies[last], official));
        assert forall|at: int| 0 <= at < earlier.len() implies goes_well(
            settings,
            #[trigger] earlier.take(at),
            earlier[at],
            official,
        ) by {
            assert(earlier.take(at) =~= replies.take(at));
            assert(goes_well(settings, replies.take(at), replies[at], official));
        }
        assert forall|at: int| 0 <= at <= earlier.len() implies reduced(
            moves_of_successes(settings, #[trigger] earlier.take(at)),
        ) is Some by {
            assert(earlier.take(at) =~= replies.take(at));
        }
        run_is_well(settings, earlier, official);
        run_keeps_moves(settings, earlier);
        run_keeps_moves(settings, replies);
        run_keeps_commits(settings, earlier);
        run_is_sound(settings, Purpose::Apply, earlier);
        run_keeps_standing(settings, earlier);
        if let Reply::Ownership(ownership) = replies.last() {
            if ownership@.len() == settings.claims@.len() && (forall|i: int|
                0 <= i < ownership@.len() ==> #[trigger] ownership@[i] is None) {
                claims_are_accepted(settings, ownership@, 0);
            }
        }
        if let Reply::Prepared { unstaged, visible, ignored, tree } = replies.last() {
            if visible@.len() == 0 && ignored@.len() == 0 {
                nothing_is_untracked(visible@, ignored@);
            }
        }
        run_decides(settings, earlier);
        let (state, action) = run(settings, Purpose::Apply, earlier);
        let reply = replies.last();
        let kept = kept_tree(settings, earlier);
        let made = commit_made(settings, earlier);
        assert(is_informed(settings, state, reply, kept, made));
        if stage(state.phase) == 0 {
            well_in_discovering(settings, state, action, reply, official, kept, made);
        } else if stage(state.phase) == 2 {
            well_in_preparing(settings, state, action, reply, official, kept, made);
        } else if stage(state.phase) == 3 {
            well_in_applying(settings, state, action, reply, official, kept, made);
        } else if stage(state.phase) == 4 {
            well_in_committing(settings, state, action, reply, official, kept, made);
        } else if stage(state.phase) == 5 {
            well_in_publishing(settings, state, action, reply, official, kept, made);
        }
    }
}

/// A batch on a repository in which nothing goes wrong does not fail: whatever has been replied so
/// far, it waits for more or has ended well.
pub proof fn undisturbed_batches_do_not_fail(
    settings: BatchSettings,
    replies: Seq<Reply>,
    official: ObjectId,
)
    requires
        are_claimed(settings),
        all_go_well(settings, replies, official),
    ensures
        !(run(settings, Purpose::Apply, replies).1 matches Action::Finish(Err(_))),
{
    run_is_well(settings, replies, official);
    let (state, action) = run(settings, Purpose::Apply, replies);
    waiting_is_no_failure(state.phase, action);
}

proof fn waiting_is_no_failure(phase: Phase, action: ActionView)
    requires
        waits(phase, action),
    ensures
        !(action matches Action::Finish(Err(_))),
{
}

} // verus!
