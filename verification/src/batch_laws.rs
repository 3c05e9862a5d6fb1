//! What holds of every run of a batch transaction.
use crate::apply::{error_code, ApplyError};
use crate::batch::{
    begun, stage, stepped, Action, ActionView, BatchSettings, Phase, Purpose, Reply, Step,
    TransactionView,
};
use crate::git_error::GitFailure;
use crate::git_text::ObjectId;
use crate::ids::{BatchId, RequestId};
use crate::journal::{
    accepted, claim_tokens, claims_problem, failure_tokens, failures_in, is_consistent,
    journaled_all, journaled_failures, journals_record_their_outcome, outcome_of, partitions,
    token_requests, tokens_in, well_claimed, BatchCommitOutcome, Claim, ClaimToken, JournalFailure,
    JournalState, JournalView, OutcomeView, RequestFailure, StateView,
};
use vstd::prelude::*;

verus! {

/// Where a transaction stands after replies, and what it ordered last.
pub open spec fn run(settings: BatchSettings, purpose: Purpose, replies: Seq<Reply>) -> Step
    decreases replies.len(),
{
    if replies.len() == 0 {
        begun(settings, purpose)
    } else {
        stepped(settings, run(settings, purpose, replies.drop_last()).0, replies.last())
    }
}

/// Whether an action was ordered and then reported as done.
pub open spec fn was_done(
    settings: BatchSettings,
    purpose: Purpose,
    replies: Seq<Reply>,
    action: ActionView,
) -> bool {
    exists|i: int|
        0 <= i < replies.len() && #[trigger] run(settings, purpose, replies.take(i)).1 == action
            && replies[i] is Done
}

/// Whether a commit was ordered.
pub open spec fn commit_ordered(
    settings: BatchSettings,
    purpose: Purpose,
    replies: Seq<Reply>,
) -> bool {
    exists|i: int|
        0 <= i <= replies.len() && #[trigger] run(settings, purpose, replies.take(i)).1 is CommitTree
}

pub(crate) proof fn done_stays(
    settings: BatchSettings,
    purpose: Purpose,
    replies: Seq<Reply>,
    action: ActionView,
)
    requires
        replies.len() > 0,
        was_done(settings, purpose, replies.drop_last(), action) || (replies.last() is Done && run(
            settings,
            purpose,
            replies.drop_last(),
        ).1 == action),
    ensures
        was_done(settings, purpose, replies, action),
{
    let earlier = replies.drop_last();
    if was_done(settings, purpose, earlier, action) {
        let i = choose|i: int|
            0 <= i < earlier.len() && #[trigger] run(settings, purpose, earlier.take(i)).1 == action
                && earlier[i] is Done;
        assert(earlier.take(i) =~= replies.take(i));
        assert(run(settings, purpose, replies.take(i)).1 == action && replies[i] is Done);
    } else {
        let i = replies.len() - 1;
        assert(replies.take(i) =~= earlier);
        assert(run(settings, purpose, replies.take(i)).1 == action && replies[i] is Done);
    }
}

/// The commit and the base of a publication under way.
pub open spec fn published(phase: Phase) -> Option<(ObjectId, ObjectId)> {
    match phase {
        Phase::PublishStorage { base, commit } => Some((base, commit)),
        Phase::Locking { base, commit } => Some((base, commit)),
        Phase::PublishBase { base, commit } => Some((base, commit)),
        Phase::PublishCanonical { base, commit } => Some((base, commit)),
        Phase::PublishRef { base, commit } => Some((base, commit)),
        Phase::SwapStorage { base, commit } => Some((base, commit)),
        Phase::Swapping { base, commit } => Some((base, commit)),
        Phase::Residue { base, commit } => Some((base, commit)),
        Phase::ResidueFile { base, commit } => Some((base, commit)),
        _ => None,
    }
}

/// The commit and the base of a commit that is journaled but not yet published.
pub open spec fn announced(phase: Phase) -> Option<(ObjectId, ObjectId)> {
    match phase {
        Phase::Recording { base, commit } => Some((base, commit)),
        Phase::Confirming { base, commit } => Some((base, commit)),
        Phase::RecoverBase { base, commit } => Some((base, commit)),
        Phase::Announcing { base, commit } => Some((base, commit)),
        Phase::Starting { base, commit } => Some((base, commit)),
        _ => None,
    }
}

/// Whether a transaction is behind the official branch's advance.
pub open spec fn is_cleaning(phase: Phase) -> bool {
    phase is Syncing || phase is CleaningWorktree || phase is CleaningRef || phase is DeletingOld
        || phase is CleanStorage
}

/// The commit that a transaction cleans up behind.
pub open spec fn cleaned(phase: Phase) -> Option<ObjectId> {
    match phase {
        Phase::Syncing { commit } => Some(commit),
        Phase::CleaningWorktree { commit } => Some(commit),
        Phase::CleaningRef { commit } => Some(commit),
        Phase::DeletingOld { commit } => Some(commit),
        Phase::CleanStorage { commit } => Some(commit),
        _ => None,
    }
}

/// Whether a journal records a commit on a base.
pub open spec fn records(
    journal: Option<JournalView>,
    batch_id: BatchId,
    base: ObjectId,
    commit: ObjectId,
) -> bool {
    journal matches Some(journal) && journal.batch_id == batch_id && journal.base_commit == base && (
    journal.state matches JournalState::Committed { commit: recorded, .. } && recorded == commit)
}

/// Whether a journal records that publication has started.
pub open spec fn has_started(journal: Option<JournalView>) -> bool {
    journal matches Some(journal) && (journal.state matches JournalState::Committed {
        publication_started,
        ..
    } && publication_started)
}

/// The base of a transaction that prepares, applies or commits.
pub open spec fn pinned(phase: Phase) -> Option<ObjectId> {
    match phase {
        Phase::Preparing { base } => Some(base),
        Phase::Adding { base } => Some(base),
        Phase::Rooting { base } => Some(base),
        Phase::Applying { base, .. } => Some(base),
        Phase::Staging { base } => Some(base),
        Phase::Resetting { base, .. } => Some(base),
        Phase::Emptying { base } => Some(base),
        Phase::EmptyWorktree { base } => Some(base),
        Phase::EmptyOfficial { base } => Some(base),
        Phase::Counting { base, .. } => Some(base),
        Phase::Building { base, .. } => Some(base),
        Phase::Inspecting { base, .. } => Some(base),
        Phase::Committing { base } => Some(base),
        Phase::Referring { base, .. } => Some(base),
        _ => None,
    }
}

/// What holds between the phase of a transaction, its journal and its last action.
pub open spec fn is_sound(settings: BatchSettings, state: TransactionView, action: ActionView) -> bool {
    &&& pinned(state.phase) matches Some(base) ==> {
        &&& state.purpose == Purpose::Apply
        &&& state.journal matches Some(journal) && journal.batch_id == settings.batch_id
            && journal.base_commit == base
    }
    &&& announced(state.phase) matches Some((base, commit)) ==> records(
        state.journal,
        settings.batch_id,
        base,
        commit,
    )
    &&& published(state.phase) matches Some((base, commit)) ==> records(
        state.journal,
        settings.batch_id,
        base,
        commit,
    ) && has_started(state.journal)
    &&& cleaned(state.phase) matches Some(commit) ==> has_started(state.journal) && records(
        state.journal,
        settings.batch_id,
        state.journal->0.base_commit,
        commit,
    )
    &&& state.phase matches Phase::Syncing { commit } ==> action == (ActionView::SyncCanonical {
        commit,
    })
    &&& state.phase is Starting ==> has_started(state.journal) && action == ActionView::WriteJournal(
        state.journal->0,
    )
    &&& state.phase is Building ==> action == ActionView::TrialBuild
    &&& state.phase is EmptyStorage ==> state.purpose == Purpose::Apply
    &&& state.phase is Recording ==> state.purpose == Purpose::Apply
    &&& stage(state.phase) == 2 ==> state.purpose == Purpose::Apply
    &&& state.phase is Identifying ==> (state.journal matches Some(journal) && journal.batch_id
        == settings.batch_id)
    &&& action matches Action::CompareAndSwap { base, commit } ==> state.phase == (
    Phase::Swapping { base, commit })
    &&& action is CommitTree ==> state.phase is Committing
}

proof fn begun_is_sound(settings: BatchSettings, purpose: Purpose)
    ensures
        is_sound(settings, begun(settings, purpose).0, begun(settings, purpose).1),
        begun(settings, purpose).0.purpose == purpose,
{
}

#[verifier::spinoff_prover]
#[verifier::rlimit(60)]
proof fn stepped_is_sound(
    settings: BatchSettings,
    state: TransactionView,
    action: ActionView,
    reply: Reply,
)
    requires
        is_sound(settings, state, action),
    ensures
        is_sound(
            settings,
            stepped(settings, state, reply).0,
            stepped(settings, state, reply).1,
        ),
        stepped(settings, state, reply).0.purpose == state.purpose,
{
}

pub(crate) proof fn run_is_sound(settings: BatchSettings, purpose: Purpose, replies: Seq<Reply>)
    ensures
        is_sound(
            settings,
            run(settings, purpose, replies).0,
            run(settings, purpose, replies).1,
        ),
        run(settings, purpose, replies).0.purpose == purpose,
    decreases replies.len(),
{
    if replies.len() == 0 {
        begun_is_sound(settings, purpose);
    } else {
        run_is_sound(settings, purpose, replies.drop_last());
        let (state, action) = run(settings, purpose, replies.drop_last());
        stepped_is_sound(settings, state, action, replies.last());
    }
}

/// Whether a transaction to apply a batch is past its trial build.
pub open spec fn past_build(phase: Phase) -> bool {
    ||| phase is Inspecting || phase is Committing || phase is Referring
    ||| announced(phase) is Some
    ||| published(phase) is Some
    ||| is_cleaning(phase)
}

proof fn builds_come_first(settings: BatchSettings, replies: Seq<Reply>)
    ensures
        past_build(run(settings, Purpose::Apply, replies).0.phase) ==> was_done(
            settings,
            Purpose::Apply,
            replies,
            ActionView::TrialBuild,
        ),
    decreases replies.len(),
{
    if replies.len() > 0 {
        let earlier = replies.drop_last();
        builds_come_first(settings, earlier);
        run_is_sound(settings, Purpose::Apply, earlier);
        let (state, action) = run(settings, Purpose::Apply, earlier);
        let next = stepped(settings, state, replies.last()).0;
        if past_build(next.phase) {
            assert(past_build(state.phase) || (state.phase is Building && replies.last() is Done));
            done_stays(settings, Purpose::Apply, replies, ActionView::TrialBuild);
        }
    }
}

#[verifier::spinoff_prover]
#[verifier::rlimit(60)]
proof fn publication_is_started(
    settings: BatchSettings,
    state: TransactionView,
    action: ActionView,
    reply: Reply,
)
    requires
        is_sound(settings, state, action),
        state.purpose == Purpose::Apply,
    ensures
        ({
            let next = stepped(settings, state, reply).0;
            published(next.phase) is Some || is_cleaning(next.phase) ==> {
                &&& next.journal == state.journal
                &&& published(state.phase) is Some || is_cleaning(state.phase) || (
                state.phase is Starting && reply is Done)
            }
        }),
{
}

proof fn starts_come_first(settings: BatchSettings, replies: Seq<Reply>)
    ensures
        ({
            let state = run(settings, Purpose::Apply, replies).0;
            published(state.phase) is Some || is_cleaning(state.phase) ==> has_started(
                state.journal,
            ) && was_done(
                settings,
                Purpose::Apply,
                replies,
                ActionView::WriteJournal(state.journal->0),
            )
        }),
    decreases replies.len(),
{
    if replies.len() > 0 {
        let earlier = replies.drop_last();
        starts_come_first(settings, earlier);
        run_is_sound(settings, Purpose::Apply, earlier);
        let (state, action) = run(settings, Purpose::Apply, earlier);
        publication_is_started(settings, state, action, replies.last());
        let next = stepped(settings, state, replies.last()).0;
        if published(next.phase) is Some || is_cleaning(next.phase) {
            done_stays(
                settings,
                Purpose::Apply,
                replies,
                ActionView::WriteJournal(state.journal->0),
            );
        }
    }
}

/// A commit is ordered only after the trial build of the prepared worktree was done.
pub proof fn commits_follow_builds(settings: BatchSettings, replies: Seq<Reply>)
    ensures
        run(settings, Purpose::Apply, replies).1 is CommitTree ==> was_done(
            settings,
            Purpose::Apply,
            replies,
            ActionView::TrialBuild,
        ),
{
    run_is_sound(settings, Purpose::Apply, replies);
    builds_come_first(settings, replies);
}

/// The official branch is advanced only to the journaled commit of the batch, from its journaled
/// base, and after the journal says that publication has started. Where the batch was applied in
/// this run, that journal was durably written and the trial build was done before.
pub proof fn branches_follow_journals(settings: BatchSettings, purpose: Purpose, replies: Seq<Reply>)
    ensures
        ({
            let (state, action) = run(settings, purpose, replies);
            action matches Action::CompareAndSwap { base, commit } ==> {
                &&& records(state.journal, settings.batch_id, base, commit)
                &&& has_started(state.journal)
                &&& purpose == Purpose::Apply ==> was_done(
                    settings,
                    purpose,
                    replies,
                    ActionView::WriteJournal(state.journal->0),
                ) && was_done(settings, purpose, replies, ActionView::TrialBuild)
            }
        }),
{
    run_is_sound(settings, purpose, replies);
    if purpose == Purpose::Apply {
        builds_come_first(settings, replies);
        starts_come_first(settings, replies);
    }
}

/// A batch is never both discarded and published: discarding never advances the official branch.
pub proof fn discarding_publishes_nothing(settings: BatchSettings, replies: Seq<Reply>)
    ensures
        !(run(settings, Purpose::Abort, replies).1 is CompareAndSwap),
        !(run(settings, Purpose::Abort, replies).1 is CommitTree),
{
    run_is_sound(settings, Purpose::Abort, replies);
    aborts_stay_early(settings, replies);
}

proof fn aborts_stay_early(settings: BatchSettings, replies: Seq<Reply>)
    ensures
        ({
            let phase = run(settings, Purpose::Abort, replies).0.phase;
            stage(phase) <= 1 || phase is Finished
        }),
    decreases replies.len(),
{
    if replies.len() > 0 {
        aborts_stay_early(settings, replies.drop_last());
        run_is_sound(settings, Purpose::Abort, replies.drop_last());
    }
}

/// Whether the claims of a batch name distinct requests.
pub open spec fn are_distinct(claims: Seq<Claim>) -> bool {
    token_requests(claim_tokens(claims)).no_duplicates()
}

proof fn checked_from(
    batch_id: BatchId,
    claims: Seq<Claim>,
    ownership: Seq<Option<String>>,
    next: int,
)
    requires
        0 <= next <= claims.len(),
        claims_problem(batch_id, claims, ownership, next) is None,
    ensures
        forall|i: int, j: int|
            0 <= i < j < claims.len() && next <= j ==> (#[trigger] claims[i]).token.request_id != (
            #[trigger] claims[j]).token.request_id,
        forall|i: int|
            next <= i < claims.len() ==> (#[trigger] claims[i]).token.batch_id == batch_id
                && claims[i].sequence is Some,
        forall|i: int|
            #![trigger claims[i]]
            next <= i < claims.len() && i > 0 && claims[i - 1].sequence is Some ==> claims[i
                - 1].sequence->0 < claims[i].sequence->0,
    decreases claims.len() - next,
{
    if next < claims.len() {
        checked_from(batch_id, claims, ownership, next + 1);
        assert forall|i: int, j: int| 0 <= i < j < claims.len() && next <= j implies (
        #[trigger] claims[i]).token.request_id != (#[trigger] claims[j]).token.request_id by {
            if j == next {
                assert(!(exists|k: int|
                    0 <= k < next && (#[trigger] claims[k]).token.request_id
                        == claims[next].token.request_id));
            }
        }
    }
}

proof fn checked_claims_are_distinct(
    batch_id: BatchId,
    claims: Seq<Claim>,
    ownership: Seq<Option<String>>,
)
    requires
        claims_problem(batch_id, claims, ownership, 0) is None,
    ensures
        are_distinct(claims),
        forall|i: int| 0 <= i < claims.len() ==> (#[trigger] claims[i]).token.batch_id == batch_id,
        forall|i: int| 0 <= i < claims.len() ==> (#[trigger] claims[i]).sequence is Some,
        forall|i: int, j: int|
            0 <= i < j < claims.len() ==> (#[trigger] claims[i]).sequence->0 < (
            #[trigger] claims[j]).sequence->0,
{
    checked_from(batch_id, claims, ownership, 0);
    let requests = token_requests(claim_tokens(claims));
    assert forall|i: int, j: int| 0 <= i < requests.len() && 0 <= j < requests.len() && i
        != j implies requests[i] != requests[j] by {
        assert(requests[i] == claims[i].token.request_id);
        assert(requests[j] == claims[j].token.request_id);
    }
    assert forall|i: int, j: int| 0 <= i < j < claims.len() implies (
    #[trigger] claims[i]).sequence->0 < (#[trigger] claims[j]).sequence->0 by {
        rising(claims, i, j);
    }
}

proof fn rising(claims: Seq<Claim>, i: int, j: int)
    requires
        0 <= i < j < claims.len(),
        forall|k: int| 0 <= k < claims.len() ==> (#[trigger] claims[k]).sequence is Some,
        forall|k: int|
            #![trigger claims[k]]
            0 < k < claims.len() && claims[k - 1].sequence is Some ==> claims[k - 1].sequence->0
                < claims[k].sequence->0,
    ensures
        claims[i].sequence->0 < claims[j].sequence->0,
    decreases j - i,
{
    assert(claims[j - 1].sequence is Some);
    assert(claims[j - 1].sequence->0 < claims[j].sequence->0);
    if i < j - 1 {
        rising(claims, i, j - 1);
    }
}

/// Whether successes and failures decide exactly the first claims of a batch.
pub open spec fn decides_first(
    claims: Seq<Claim>,
    count: int,
    successful: Seq<ClaimToken>,
    failures: Seq<RequestFailure>,
) -> bool {
    let failed = failure_tokens(failures);
    &&& 0 <= count <= claims.len()
    &&& successful.no_duplicates()
    &&& failed.no_duplicates()
    &&& forall|token: ClaimToken| !(successful.contains(token) && #[trigger] failed.contains(token))
    &&& forall|token: ClaimToken|
        claim_tokens(claims.take(count)).contains(token) <==> (#[trigger] successful.contains(token)
            || failed.contains(token))
}

proof fn token_is_new(claims: Seq<Claim>, count: int)
    requires
        0 <= count < claims.len(),
        are_distinct(claims),
    ensures
        !claim_tokens(claims.take(count)).contains(claims[count].token),
        forall|token: ClaimToken|
            claim_tokens(claims.take(count + 1)).contains(token) <==> #[trigger] claim_tokens(
                claims.take(count),
            ).contains(token) || token == claims[count].token,
{
    let earlier = claim_tokens(claims.take(count));
    let later = claim_tokens(claims.take(count + 1));
    let requests = token_requests(claim_tokens(claims));
    assert(later =~= earlier.push(claims[count].token));
    assert forall|i: int| 0 <= i < earlier.len() implies earlier[i] != claims[count].token by {
        assert(requests[i] != requests[count]);
    }
    assert forall|token: ClaimToken| later.contains(token) <==> #[trigger] earlier.contains(token)
        || token == claims[count].token by {
        if earlier.contains(token) {
            let i = choose|i: int| 0 <= i < earlier.len() && earlier[i] == token;
            assert(later[i] == token);
        }
        if token == claims[count].token {
            assert(later[count] == token);
        }
        if later.contains(token) {
            let i = choose|i: int| 0 <= i < later.len() && later[i] == token;
            if i < count {
                assert(earlier[i] == token);
            }
        }
    }
}

proof fn pushed_contains(tokens: Seq<ClaimToken>, added: ClaimToken)
    ensures
        forall|token: ClaimToken| #[trigger]
            tokens.push(added).contains(token) <==> tokens.contains(token) || token == added,
        tokens.no_duplicates() && !tokens.contains(added) ==> tokens.push(added).no_duplicates(),
{
    let more = tokens.push(added);
    assert forall|token: ClaimToken| #[trigger] more.contains(token) <==> tokens.contains(token)
        || token == added by {
        if tokens.contains(token) {
            let i = choose|i: int| 0 <= i < tokens.len() && tokens[i] == token;
            assert(more[i] == token);
        }
        if token == added {
            assert(more[tokens.len() as int] == token);
        }
        if more.contains(token) {
            let i = choose|i: int| 0 <= i < more.len() && more[i] == token;
            if i < tokens.len() {
                assert(tokens[i] == token);
            }
        }
    }
}

proof fn success_decides(
    claims: Seq<Claim>,
    count: int,
    successful: Seq<ClaimToken>,
    failures: Seq<RequestFailure>,
)
    requires
        decides_first(claims, count, successful, failures),
        count < claims.len(),
        are_distinct(claims),
    ensures
        decides_first(claims, count + 1, successful.push(claims[count].token), failures),
{
    token_is_new(claims, count);
    pushed_contains(successful, claims[count].token);
    assert(!successful.contains(claims[count].token));
}

proof fn failure_decides(
    claims: Seq<Claim>,
    count: int,
    successful: Seq<ClaimToken>,
    failures: Seq<RequestFailure>,
    failure: RequestFailure,
)
    requires
        decides_first(claims, count, successful, failures),
        count < claims.len(),
        are_distinct(claims),
        failure.token == claims[count].token,
    ensures
        decides_first(claims, count + 1, successful, failures.push(failure)),
{
    token_is_new(claims, count);
    let failed = failure_tokens(failures);
    pushed_contains(failed, failure.token);
    assert(failure_tokens(failures.push(failure)) =~= failed.push(failure.token));
    assert(!successful.contains(claims[count].token));
}

proof fn all_decided(
    claims: Seq<Claim>,
    successful: Seq<ClaimToken>,
    failures: Seq<RequestFailure>,
)
    requires
        decides_first(claims, claims.len() as int, successful, failures),
    ensures
        partitions(claims, successful, failures),
{
    let failed = failure_tokens(failures);
    let tokens = successful + failed;
    let all = claim_tokens(claims);
    assert(claims.take(claims.len() as int) =~= claims);
    assert forall|i: int, j: int| 0 <= i < tokens.len() && 0 <= j < tokens.len() && i
        != j implies tokens[i] != tokens[j] by {
        if i < successful.len() && j >= successful.len() {
            assert(successful.contains(tokens[i]));
            assert(failed[j - successful.len()] == tokens[j]);
            assert(failed.contains(tokens[j]));
        } else if j < successful.len() && i >= successful.len() {
            assert(successful.contains(tokens[j]));
            assert(failed[i - successful.len()] == tokens[i]);
            assert(failed.contains(tokens[i]));
        } else if i >= successful.len() {
            assert(failed[i - successful.len()] != failed[j - successful.len()]);
        }
    }
    assert forall|token: ClaimToken| tokens.to_set().contains(token) <==> all.to_set().contains(
        token,
    ) by {
        if tokens.contains(token) {
            let i = choose|i: int| 0 <= i < tokens.len() && tokens[i] == token;
            if i < successful.len() {
                assert(successful.contains(token));
            } else {
                assert(failed[i - successful.len()] == token);
                assert(failed.contains(token));
            }
        }
        if all.contains(token) {
            assert(successful.contains(token) || failed.contains(token));
            if successful.contains(token) {
                let i = choose|i: int| 0 <= i < successful.len() && successful[i] == token;
                assert(tokens[i] == token);
            } else {
                let i = choose|i: int| 0 <= i < failed.len() && failed[i] == token;
                assert(tokens[successful.len() + i] == token);
            }
        }
    }
    assert(tokens.to_set() =~= all.to_set());
}

/// What a run to apply a batch has decided, by phase.
pub open spec fn has_decided(settings: BatchSettings, state: TransactionView) -> bool {
    let claims = settings.claims@;
    let phase = state.phase;
    &&& stage(phase) <= 2 ==> state.next == 0 && state.successful.len() == 0
        && state.failures.len() == 0
    &&& pinned(phase) is Some || phase is CheckingCanonical || phase is Pinning
        || phase is CheckingWorktree || phase is Naming || phase is EmptyStorage || announced(
        phase,
    ) is Some || published(phase) is Some || is_cleaning(phase) ==> {
        &&& are_distinct(claims)
        &&& decides_first(claims, state.next as int, state.successful, state.failures)
    }
    &&& stage(phase) >= 4 && !(phase is Finished) || phase is Emptying || phase is EmptyWorktree
        || phase is EmptyOfficial || phase is EmptyStorage ==> state.next == claims.len()
    &&& phase is Emptying || phase is EmptyWorktree || phase is EmptyOfficial
        || phase is EmptyStorage ==> state.successful.len() == 0
    &&& !(phase is FinalStorage)
}

#[verifier::spinoff_prover]
#[verifier::rlimit(80)]
proof fn stepped_decides(
    settings: BatchSettings,
    state: TransactionView,
    action: ActionView,
    reply: Reply,
)
    requires
        is_sound(settings, state, action),
        state.purpose == Purpose::Apply,
        has_decided(settings, state),
    ensures
        has_decided(settings, stepped(settings, state, reply).0),
        stepped(settings, state, reply).1 matches Action::Finish(Ok(Some(outcome))) ==> partitions(
            settings.claims@,
            outcome_successful(outcome),
            outcome_failures(outcome),
        ),
{
    let claims = settings.claims@;
    assert(settings.claims.len() == claims.len());
    if state.phase is CheckingClaims {
        if let Reply::Ownership(ownership) = reply {
            if claims_problem(settings.batch_id, claims, ownership@, 0) is None {
                checked_claims_are_distinct(settings.batch_id, claims, ownership@);
            }
        }
        assert(claim_tokens(claims.take(0)) =~= Seq::<ClaimToken>::empty());
        assert(failure_tokens(state.failures) =~= Seq::<ClaimToken>::empty());
        assert(decides_first(claims, 0, state.successful, state.failures));
    }
    if state.phase is Staging && state.next < claims.len() {
        success_decides(claims, state.next as int, state.successful, state.failures);
    }
    if state.phase is Resetting && state.next < claims.len() {
        if let Some(failure) = state.refused {
            if let Some(error_code) = error_code(failure) {
                failure_decides(
                    claims,
                    state.next as int,
                    state.successful,
                    state.failures,
                    RequestFailure { token: claims[state.next as int].token, error_code },
                );
            }
        }
    }
    if state.phase is EmptyStorage || state.phase is CleanStorage {
        all_decided(claims, state.successful, state.failures);
        assert(state.successful.len() == 0 ==> state.successful =~= Seq::<ClaimToken>::empty());
    }
}

/// The successes of an outcome.
pub open spec fn outcome_successful(outcome: OutcomeView) -> Seq<ClaimToken> {
    match outcome {
        BatchCommitOutcome::NoChanges { .. } => Seq::empty(),
        BatchCommitOutcome::Committed { successful, .. } => successful,
    }
}

/// The failures of an outcome.
pub open spec fn outcome_failures(outcome: OutcomeView) -> Seq<RequestFailure> {
    match outcome {
        BatchCommitOutcome::NoChanges { failures } => failures,
        BatchCommitOutcome::Committed { failures, .. } => failures,
    }
}

pub(crate) proof fn run_decides(settings: BatchSettings, replies: Seq<Reply>)
    ensures
        has_decided(settings, run(settings, Purpose::Apply, replies).0),
    decreases replies.len(),
{
    if replies.len() > 0 {
        let earlier = replies.drop_last();
        run_decides(settings, earlier);
        run_is_sound(settings, Purpose::Apply, earlier);
        let (state, action) = run(settings, Purpose::Apply, earlier);
        stepped_decides(settings, state, action, replies.last());
    }
}

/// Every claim of an applied batch is decided exactly once: it is among the successes or among
/// the failures of the outcome, and nothing else is.
pub proof fn outcomes_partition_claims(settings: BatchSettings, replies: Seq<Reply>)
    ensures
        run(settings, Purpose::Apply, replies).1 matches Action::Finish(Ok(Some(outcome)))
            ==> partitions(
            settings.claims@,
            outcome_successful(outcome),
            outcome_failures(outcome),
        ),
{
    if replies.len() > 0 {
        let earlier = replies.drop_last();
        run_decides(settings, earlier);
        run_is_sound(settings, Purpose::Apply, earlier);
        let (state, action) = run(settings, Purpose::Apply, earlier);
        stepped_decides(settings, state, action, replies.last());
    }
}

/// Whether a transaction ends a batch without changes.
pub open spec fn is_emptying(phase: Phase) -> bool {
    phase is Emptying || phase is EmptyWorktree || phase is EmptyOfficial || phase is EmptyStorage
}

/// Whether the queue confirmed the claims of a batch.
pub open spec fn is_checked(settings: BatchSettings) -> bool {
    exists|ownership: Seq<Option<String>>| #[trigger]
        claims_problem(settings.batch_id, settings.claims@, ownership, 0) is None
}

/// What the journal of a run to apply a batch says of the decisions, by phase.
pub open spec fn journals_decisions(settings: BatchSettings, state: TransactionView) -> bool {
    let phase = state.phase;
    let emptying = is_emptying(phase);
    let committed = announced(phase) is Some || published(phase) is Some || is_cleaning(phase);
    &&& pinned(phase) is Some || emptying || committed ==> {
        &&& is_checked(settings)
        &&& state.journal matches Some(journal) && journal.batch_id == settings.batch_id
            && journal.claims == journaled_all(settings.claims@)
    }
    &&& phase is CheckingCanonical || phase is Pinning || phase is CheckingWorktree
        || phase is Naming ==> is_checked(settings)
    &&& emptying ==> state.journal->0.state == (StateView::NoChanges {
        failures: journaled_failures(state.failures),
    })
    &&& committed ==> (state.journal->0.state matches JournalState::Committed {
        successful,
        failures,
        ..
    } && successful == token_requests(state.successful) && failures == journaled_failures(
        state.failures,
    ))
}

#[verifier::spinoff_prover]
#[verifier::rlimit(80)]
proof fn stepped_journals(
    settings: BatchSettings,
    state: TransactionView,
    action: ActionView,
    reply: Reply,
)
    requires
        is_sound(settings, state, action),
        state.purpose == Purpose::Apply,
        journals_decisions(settings, state),
    ensures
        journals_decisions(settings, stepped(settings, state, reply).0),
{
}

proof fn run_journals(settings: BatchSettings, replies: Seq<Reply>)
    ensures
        journals_decisions(settings, run(settings, Purpose::Apply, replies).0),
    decreases replies.len(),
{
    if replies.len() > 0 {
        let earlier = replies.drop_last();
        run_journals(settings, earlier);
        run_is_sound(settings, Purpose::Apply, earlier);
        let (state, action) = run(settings, Purpose::Apply, earlier);
        stepped_journals(settings, state, action, replies.last());
    }
}

/// An interrupted batch recovers the outcome that it would have had: from the moment at which a
/// run journals its commit, or that nothing is to be committed, the journal is consistent and
/// records exactly the commit, the successes and the failures with which that run ends.
pub proof fn interrupted_batches_keep_their_outcome(settings: BatchSettings, replies: Seq<Reply>)
    requires
        forall|i: int|
            0 <= i < settings.claims@.len() ==> (#[trigger] settings.claims@[i]).token.attempt > 0
                && (settings.claims@[i].sequence matches Some(sequence) ==> sequence > 0),
    ensures
        ({
            let state = run(settings, Purpose::Apply, replies).0;
            announced(state.phase) is Some || published(state.phase) is Some || is_cleaning(
                state.phase,
            ) ==> {
                let journal = state.journal->0;
                &&& is_consistent(journal, settings.batch_id)
                &&& journal.state matches JournalState::Committed { commit, .. } && outcome_of(
                    journal,
                ) == Ok::<OutcomeView, GitFailure>(
                    BatchCommitOutcome::Committed {
                        commit,
                        successful: state.successful,
                        failures: state.failures,
                    },
                )
            }
        }),
        ({
            let state = run(settings, Purpose::Apply, replies).0;
            is_emptying(state.phase) ==> {
                let journal = state.journal->0;
                &&& state.journal is Some
                &&& is_consistent(journal, settings.batch_id)
                &&& journal.state is NoChanges
                &&& outcome_of(journal) == Ok::<OutcomeView, GitFailure>(
                    BatchCommitOutcome::NoChanges { failures: state.failures },
                )
            }
        }),
{
    let state = run(settings, Purpose::Apply, replies).0;
    let claims = settings.claims@;
    run_is_sound(settings, Purpose::Apply, replies);
    run_decides(settings, replies);
    run_journals(settings, replies);
    if announced(state.phase) is Some || published(state.phase) is Some || is_cleaning(state.phase)
        || is_emptying(state.phase) {
        let ownership = choose|ownership: Seq<Option<String>>| #[trigger]
            claims_problem(settings.batch_id, claims, ownership, 0) is None;
        checked_claims_are_distinct(settings.batch_id, claims, ownership);
        assert(well_claimed(settings.batch_id, claims)) by {
            assert forall|i: int| 0 <= i < claims.len() implies {
                &&& (#[trigger] claims[i]).token.batch_id == settings.batch_id
                &&& claims[i].token.attempt > 0
                &&& claims[i].sequence matches Some(sequence) && sequence > 0
            } by {
                assert(claims[i].sequence is Some);
            }
        }
        all_decided(claims, state.successful, state.failures);
        let journal = state.journal->0;
        if let JournalState::Committed { commit, publication_started, .. } = journal.state {
            journals_record_their_outcome(
                settings.batch_id,
                journal.queue_identity,
                journal.base_commit,
                claims,
                journal.claim_failures,
                commit,
                state.successful,
                state.failures,
                publication_started,
            );
        }
        if is_emptying(state.phase) {
            journals_record_their_outcome(
                settings.batch_id,
                journal.queue_identity,
                journal.base_commit,
                claims,
                journal.claim_failures,
                journal.base_commit,
                state.successful,
                state.failures,
                false,
            );
        }
    }
}

proof fn early_runs_commit_nothing(settings: BatchSettings, replies: Seq<Reply>)
    ensures
        ({
            let phase = run(settings, Purpose::Apply, replies).0.phase;
            stage(phase) <= 3 || phase is Counting || phase is Building || phase is Inspecting
                ==> !commit_ordered(settings, Purpose::Apply, replies)
        }),
    decreases replies.len(),
{
    let (state, action) = run(settings, Purpose::Apply, replies);
    run_is_sound(settings, Purpose::Apply, replies);
    if replies.len() == 0 {
        assert forall|i: int| 0 <= i <= replies.len() implies !(#[trigger] run(
            settings,
            Purpose::Apply,
            replies.take(i),
        ).1 is CommitTree) by {
            assert(replies.take(i) =~= replies);
        }
    } else {
        let earlier = replies.drop_last();
        early_runs_commit_nothing(settings, earlier);
        run_is_sound(settings, Purpose::Apply, earlier);
        let (before, ordered) = run(settings, Purpose::Apply, earlier);
        if stage(state.phase) <= 3 || state.phase is Counting || state.phase is Building
            || state.phase is Inspecting {
            early_phases_come_first(settings, before, ordered, replies.last());
            assert forall|i: int| 0 <= i <= replies.len() implies !(#[trigger] run(
                settings,
                Purpose::Apply,
                replies.take(i),
            ).1 is CommitTree) by {
                if i < replies.len() {
                    assert(replies.take(i) =~= earlier.take(i));
                    assert(!commit_ordered(settings, Purpose::Apply, earlier));
                } else {
                    assert(replies.take(i) =~= replies);
                }
            }
        }
    }
}

#[verifier::spinoff_prover]
#[verifier::rlimit(60)]
proof fn early_phases_come_first(
    settings: BatchSettings,
    state: TransactionView,
    action: ActionView,
    reply: Reply,
)
    requires
        is_sound(settings, state, action),
        state.purpose == Purpose::Apply,
    ensures
        ({
            let next = stepped(settings, state, reply).0.phase;
            stage(next) <= 3 || next is Counting || next is Building || next is Inspecting ==> {
                ||| stage(state.phase) <= 3
                ||| state.phase is Counting || state.phase is Building
            }
        }),
        stepped(settings, state, reply).1 matches Action::Finish(
            Ok(Some(BatchCommitOutcome::NoChanges { .. })),
        ) ==> stage(state.phase) <= 3 || state.phase is FinalStorage,
{
}

/// A batch of which every claim failed leaves the repository alone: no commit was ordered.
pub proof fn unchanged_batches_commit_nothing(settings: BatchSettings, replies: Seq<Reply>)
    requires
        run(settings, Purpose::Apply, replies).1 matches Action::Finish(
            Ok(Some(BatchCommitOutcome::NoChanges { .. })),
        ),
    ensures
        !commit_ordered(settings, Purpose::Apply, replies),
{
    if replies.len() > 0 {
        let earlier = replies.drop_last();
        let (before, ordered) = run(settings, Purpose::Apply, earlier);
        run_is_sound(settings, Purpose::Apply, earlier);
        run_decides(settings, earlier);
        early_phases_come_first(settings, before, ordered, replies.last());
        early_runs_commit_nothing(settings, earlier);
        assert forall|i: int| 0 <= i <= replies.len() implies !(#[trigger] run(
            settings,
            Purpose::Apply,
            replies.take(i),
        ).1 is CommitTree) by {
            if i < replies.len() {
                assert(replies.take(i) =~= earlier.take(i));
            } else {
                assert(replies.take(i) =~= replies);
            }
        }
    }
}

/// A claim that is refused for a fault of its own request is undone: the worktree is reset to the
/// tree of the last success, and what was applied before stays as it was.
pub proof fn refused_claims_are_undone(
    settings: BatchSettings,
    state: TransactionView,
    base: ObjectId,
    tree: ObjectId,
    error: ApplyError,
)
    requires
        state.phase == (Phase::Applying { base, tree }),
        state.next < settings.claims@.len(),
        error_code(error@) is Some,
    ensures
        ({
            let (undoing, action) = stepped(settings, state, Reply::Refused(error));
            let (after, next_action) = stepped(settings, undoing, Reply::Done);
            &&& action == (ActionView::ResetWorktree { tree })
            &&& after.successful == state.successful
            &&& after.moves == state.moves
            &&& after.failures == state.failures.push(
                RequestFailure {
                    token: settings.claims@[state.next as int].token,
                    error_code: error_code(error@)->0,
                },
            )
            &&& after.next == state.next + 1
            &&& after.next < settings.claims@.len() ==> after.phase == (Phase::Applying {
                base,
                tree,
            }) && next_action == (ActionView::ApplyClaim { index: after.next })
        }),
{
    assert(settings.claims.len() == settings.claims@.len());
}

/// The phases of a recovery before the journal of its batch was read.
pub open spec fn before_reading(phase: Phase) -> bool {
    phase is Readying || phase is Listing || phase is Reading
}

/// The phases of a recovery that works on the journal of its batch.
pub open spec fn is_recovering(phase: Phase) -> bool {
    ||| phase is Identifying || phase is ConfirmingBase || phase is DiscardingWorktree
    ||| phase is DiscardingRef || phase is InspectingRef || phase is ResolvingRef
    ||| phase is DeletingRef || phase is FinalStorage
    ||| phase is Confirming || phase is RecoverBase || phase is Announcing || phase is Starting
    ||| published(phase) is Some
    ||| is_cleaning(phase)
}

/// Whether a journal records what another does, at most with its publication started.
spec fn same_record(journal: JournalView, later: JournalView) -> bool {
    later == journal || (journal.state matches JournalState::Committed {
        commit,
        successful,
        failures,
        ..
    } && later == (JournalView {
        state: JournalState::Committed { commit, successful, failures, publication_started: true },
        ..journal
    }))
}

proof fn tokens_stay(journal: JournalView, later: JournalView, requests: Seq<RequestId>)
    requires
        same_record(journal, later),
    ensures
        tokens_in(journal, requests) == tokens_in(later, requests),
    decreases requests.len(),
{
    if requests.len() > 0 {
        tokens_stay(journal, later, requests.drop_last());
    }
}

proof fn failures_stay(journal: JournalView, later: JournalView, failures: Seq<JournalFailure>)
    requires
        same_record(journal, later),
    ensures
        failures_in(journal, failures) == failures_in(later, failures),
    decreases failures.len(),
{
    if failures.len() > 0 {
        failures_stay(journal, later, failures.drop_last());
    }
}

proof fn outcomes_stay(journal: JournalView, later: JournalView)
    requires
        same_record(journal, later),
    ensures
        outcome_of(journal) == outcome_of(later),
{
    if let JournalState::Committed { successful, failures, .. } = journal.state {
        tokens_stay(journal, later, successful);
        failures_stay(journal, later, failures);
    }
}

#[verifier::spinoff_prover]
#[verifier::rlimit(60)]
proof fn stepped_recovers(settings: BatchSettings, state: TransactionView, reply: Reply)
    requires
        state.purpose == Purpose::Recover,
        before_reading(state.phase) || is_recovering(state.phase) || state.phase is Finished,
        is_recovering(state.phase) ==> state.journal is Some,
    ensures
        ({
            let (next, action) = stepped(settings, state, reply);
            &&& before_reading(next.phase) || is_recovering(next.phase) || next.phase is Finished
            &&& is_recovering(next.phase) ==> next.journal is Some
            &&& next.phase is Reading ==> action is ReadJournal
            &&& is_recovering(next.phase) && is_recovering(state.phase) ==> same_record(
                state.journal->0,
                next.journal->0,
            )
            &&& is_recovering(next.phase) && !is_recovering(state.phase) ==> state.phase is Reading
                && (reply matches Reply::Journal(Some(stored)) && accepted(
                stored,
                settings.batch_id,
            ) == Ok::<JournalView, GitFailure>(next.journal->0))
            &&& action matches Action::Finish(Ok(found)) ==> is_recovering(state.phase) && (
            found matches Some(outcome) && outcome_of(state.journal->0) == Ok::<
                OutcomeView,
                GitFailure,
            >(outcome))
        }),
{
}

/// Whether the journal that a recovery read at a point records an outcome.
pub open spec fn read_outcome(
    settings: BatchSettings,
    replies: Seq<Reply>,
    at: int,
    outcome: Result<OutcomeView, GitFailure>,
) -> bool {
    &&& run(settings, Purpose::Recover, replies.take(at)).1 is ReadJournal
    &&& replies[at] matches Reply::Journal(Some(stored)) && (accepted(
        stored,
        settings.batch_id,
    ) matches Ok(journal) && outcome_of(journal) == outcome)
}

pub(crate) proof fn run_recovers(settings: BatchSettings, replies: Seq<Reply>)
    ensures
        ({
            let (state, action) = run(settings, Purpose::Recover, replies);
            &&& before_reading(state.phase) || is_recovering(state.phase) || state.phase is Finished
            &&& is_recovering(state.phase) ==> state.journal is Some
            &&& state.phase is Reading ==> action is ReadJournal
            &&& is_recovering(state.phase) ==> exists|at: int|
                0 <= at < replies.len() && #[trigger] read_outcome(
                    settings,
                    replies,
                    at,
                    outcome_of(state.journal->0),
                )
        }),
    decreases replies.len(),
{
    if replies.len() > 0 {
        let earlier = replies.drop_last();
        run_recovers(settings, earlier);
        run_is_sound(settings, Purpose::Recover, earlier);
        let (before, ordered) = run(settings, Purpose::Recover, earlier);
        stepped_recovers(settings, before, replies.last());
        let state = stepped(settings, before, replies.last()).0;
        if is_recovering(state.phase) {
            let outcome = outcome_of(state.journal->0);
            if is_recovering(before.phase) {
                outcomes_stay(before.journal->0, state.journal->0);
                let at = choose|at: int|
                    0 <= at < earlier.len() && #[trigger] read_outcome(settings, earlier, at, outcome);
                assert(replies.take(at) =~= earlier.take(at));
                assert(read_outcome(settings, replies, at, outcome));
            } else {
                let at = replies.len() - 1;
                assert(replies.take(at) =~= earlier);
                assert(read_outcome(settings, replies, at, outcome));
            }
        }
    }
}

/// A recovery that ends well gives exactly the outcome that is recorded in the journal that it
/// read, and it never ends well without one.
pub proof fn recoveries_follow_journals(settings: BatchSettings, replies: Seq<Reply>)
    ensures
        run(settings, Purpose::Recover, replies).1 matches Action::Finish(Ok(found)) ==> (
        found matches Some(outcome) && exists|at: int|
            0 <= at < replies.len() && #[trigger] read_outcome(settings, replies, at, Ok(outcome))),
{
    if replies.len() > 0 {
        let earlier = replies.drop_last();
        run_recovers(settings, earlier);
        run_is_sound(settings, Purpose::Recover, earlier);
        let before = run(settings, Purpose::Recover, earlier).0;
        stepped_recovers(settings, before, replies.last());
        if let Action::Finish(Ok(found)) = run(settings, Purpose::Recover, replies).1 {
            let outcome = outcome_of(before.journal->0);
            let at = choose|at: int|
                0 <= at < earlier.len() && #[trigger] read_outcome(settings, earlier, at, outcome);
            assert(replies.take(at) =~= earlier.take(at));
            assert(read_outcome(settings, replies, at, outcome));
        }
    }
}

/// A batch that is interrupted behind its commit and then recovered keeps its outcome: a recovery
/// that reads the journal which the interrupted run wrote, and that ends well, gives the commit of
/// that journal with the successes and the failures that the interrupted run had decided.
pub proof fn recovered_batches_keep_their_outcome(
    settings: BatchSettings,
    interrupted: Seq<Reply>,
    replies: Seq<Reply>,
)
    requires
        forall|i: int|
            0 <= i < settings.claims@.len() ==> (#[trigger] settings.claims@[i]).token.attempt > 0
                && (settings.claims@[i].sequence matches Some(sequence) ==> sequence > 0),
        ({
            let phase = run(settings, Purpose::Apply, interrupted).0.phase;
            announced(phase) is Some || published(phase) is Some || is_cleaning(phase)
        }),
        forall|at: int|
            0 <= at < replies.len() ==> (#[trigger] replies[at] matches Reply::Journal(
                Some(stored),
            ) ==> accepted(stored, settings.batch_id) == Ok::<JournalView, GitFailure>(
                run(settings, Purpose::Apply, interrupted).0.journal->0,
            )),
    ensures
        ({
            let state = run(settings, Purpose::Apply, interrupted).0;
            run(settings, Purpose::Recover, replies).1 matches Action::Finish(Ok(found)) ==> {
                &&& state.journal->0.state matches JournalState::Committed { commit, .. }
                    && found == Some(
                    OutcomeView::Committed {
                        commit,
                        successful: state.successful,
                        failures: state.failures,
                    },
                )
            }
        }),
{
    interrupted_batches_keep_their_outcome(settings, interrupted);
    recoveries_follow_journals(settings, replies);
    if let Action::Finish(Ok(found)) = run(settings, Purpose::Recover, replies).1 {
        let outcome = found->0;
        let at = choose|at: int|
            0 <= at < replies.len() && #[trigger] read_outcome(settings, replies, at, Ok(outcome));
        assert(replies[at] is Journal);
    }
}

/// Whether the commit of a batch is fixed at a phase.
spec fn is_fixed(phase: Phase) -> bool {
    announced(phase) is Some || published(phase) is Some || is_cleaning(phase)
        || phase is FinalStorage || phase is Finished
}

/// Whether the journal of a transaction holds a commit.
spec fn holds_commit(state: TransactionView, commit: ObjectId) -> bool {
    state.journal matches Some(journal) && (journal.state matches JournalState::Committed {
        commit: held,
        ..
    } && held == commit)
}

#[verifier::spinoff_prover]
#[verifier::rlimit(60)]
proof fn stepped_announces(
    settings: BatchSettings,
    state: TransactionView,
    action: ActionView,
    reply: Reply,
)
    requires
        is_sound(settings, state, action),
    ensures
        stepped(settings, state, reply).1 matches Action::BeforePublish { base, commit }
            ==> stepped(settings, state, reply).0.phase == (Phase::Announcing { base, commit }),
{
}

#[verifier::spinoff_prover]
#[verifier::rlimit(80)]
proof fn stepped_keeps_commit(
    settings: BatchSettings,
    state: TransactionView,
    action: ActionView,
    reply: Reply,
    commit: ObjectId,
)
    requires
        is_sound(settings, state, action),
        is_fixed(state.phase),
        holds_commit(state, commit),
    ensures
        ({
            let (next, ordered) = stepped(settings, state, reply);
            &&& is_fixed(next.phase)
            &&& holds_commit(next, commit)
            &&& ordered matches Action::Finish(
                Ok(Some(BatchCommitOutcome::Committed { commit: ended, .. })),
            ) ==> ended == commit
        }),
{
}

/// A release is asked of exactly the commit with which a batch ends: where a run asked for
/// derived output of a commit and then ends well with a commit, it is that one.
pub proof fn releases_are_asked_of_the_outcome(
    settings: BatchSettings,
    purpose: Purpose,
    replies: Seq<Reply>,
    at: int,
)
    requires
        0 <= at < replies.len(),
    ensures
        run(settings, purpose, replies.take(at)).1 matches Action::BeforePublish { commit, .. } ==> (
        run(settings, purpose, replies).1 matches Action::Finish(
            Ok(Some(BatchCommitOutcome::Committed { commit: ended, .. })),
        ) ==> ended == commit),
{
    if let Action::BeforePublish { commit, .. } = run(settings, purpose, replies.take(at)).1 {
        asked_commits_stay(settings, purpose, replies, at, commit);
    }
}

proof fn asked_commits_stay(
    settings: BatchSettings,
    purpose: Purpose,
    replies: Seq<Reply>,
    at: int,
    commit: ObjectId,
)
    requires
        0 <= at <= replies.len(),
        run(settings, purpose, replies.take(at)).1 matches Action::BeforePublish {
            commit: asked,
            ..
        } && asked == commit,
    ensures
        ({
            let (state, action) = run(settings, purpose, replies);
            &&& is_fixed(state.phase)
            &&& holds_commit(state, commit)
            &&& action matches Action::Finish(
                Ok(Some(BatchCommitOutcome::Committed { commit: ended, .. })),
            ) ==> ended == commit
        }),
    decreases replies.len(),
{
    run_is_sound(settings, purpose, replies);
    if at == replies.len() {
        assert(replies.take(at) =~= replies);
        if replies.len() > 0 {
            let earlier = replies.drop_last();
            run_is_sound(settings, purpose, earlier);
            let (before, ordered) = run(settings, purpose, earlier);
            stepped_announces(settings, before, ordered, replies.last());
        }
    } else {
        let earlier = replies.drop_last();
        assert(replies.take(at) =~= earlier.take(at));
        asked_commits_stay(settings, purpose, earlier, at, commit);
        run_is_sound(settings, purpose, earlier);
        let (before, ordered) = run(settings, purpose, earlier);
        stepped_keeps_commit(settings, before, ordered, replies.last(), commit);
    }
}

} // verus!
