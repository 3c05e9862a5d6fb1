//! What a run of a batch makes of the content, given what applying each of its claims does.
use crate::apply::{error_code, ErrorCode};
use crate::batch::{
    stage, stepped, Action, ActionView, BatchSettings, Phase, Purpose, Reply, TransactionView,
};
use crate::batch_laws::{
    has_decided, outcome_failures, outcome_successful, run, run_decides, run_is_sound,
};
use crate::git_text::ObjectId;
use crate::journal::{claim_tokens, failure_tokens, ClaimToken, RequestFailure};
use vstd::prelude::*;

verus! {

/// What applying a claim on top of a tree does: it gives another tree, or it is refused for a
/// fault of its request.
pub type ClaimModel = spec_fn(ObjectId, ClaimToken) -> Result<ObjectId, ErrorCode>;

/// What claims make of a tree, one on top of the other: the last tree, the claims that were
/// applied and those that were refused. A refused claim leaves the tree as it was.
pub open spec fn modelled(model: ClaimModel, root: ObjectId, tokens: Seq<ClaimToken>) -> (
    ObjectId,
    Seq<ClaimToken>,
    Seq<RequestFailure>,
)
    decreases tokens.len(),
{
    if tokens.len() == 0 {
        (root, Seq::empty(), Seq::empty())
    } else {
        let (tree, successful, failures) = modelled(model, root, tokens.drop_last());
        let token = tokens.last();
        match model(tree, token) {
            Ok(after) => (after, successful.push(token), failures),
            Err(error_code) => (
                tree,
                successful,
                failures.push(RequestFailure { token, error_code }),
            ),
        }
    }
}

/// Whether the reply at a point of a run is what a model says of the claims, with the worktree
/// beginning at a tree.
pub open spec fn reply_follows(
    settings: BatchSettings,
    model: ClaimModel,
    root: ObjectId,
    replies: Seq<Reply>,
    at: int,
) -> bool {
    let state = run(settings, Purpose::Apply, replies.take(at)).0;
    let token = settings.claims@[state.next as int].token;
    match (state.phase, replies[at]) {
        (Phase::Rooting { .. }, Reply::Object(tree)) => tree == root,
        (Phase::Applying { tree, .. }, Reply::Refused(error)) => error_code(error@) matches Some(
            code,
        ) ==> model(tree, token) == Err::<ObjectId, ErrorCode>(code),
        (Phase::Staging { .. }, Reply::Object(after)) => run(
            settings,
            Purpose::Apply,
            replies.take(at - 1),
        ).0.phase matches Phase::Applying { tree, .. } ==> model(tree, token) == Ok::<
            ObjectId,
            ErrorCode,
        >(after),
        _ => true,
    }
}

/// Whether the replies of a run are what a model says of the claims, with the worktree beginning
/// at a tree.
pub open spec fn follows(
    settings: BatchSettings,
    model: ClaimModel,
    root: ObjectId,
    replies: Seq<Reply>,
) -> bool {
    forall|at: int|
        0 <= at < replies.len() ==> #[trigger] reply_follows(settings, model, root, replies, at)
}

/// What a run has made of the tree, by phase.
spec fn is_modelled(
    settings: BatchSettings,
    model: ClaimModel,
    root: ObjectId,
    replies: Seq<Reply>,
) -> bool {
    let (state, action) = run(settings, Purpose::Apply, replies);
    let tokens = claim_tokens(settings.claims@);
    let decided = modelled(model, root, tokens.take(state.next as int));
    let all = modelled(model, root, tokens);
    &&& state.phase matches Phase::Applying { tree, .. } ==> state.next < tokens.len() && decided
        == (tree, state.successful, state.failures)
    &&& state.phase matches Phase::Resetting { tree, .. } ==> {
        &&& decided == (tree, state.successful, state.failures)
        &&& state.next < tokens.len()
        &&& state.refused matches Some(failure) ==> (error_code(failure) matches Some(code)
            ==> model(tree, tokens[state.next as int]) == Err::<ObjectId, ErrorCode>(code))
    }
    &&& state.phase is Staging ==> {
        let before = run(settings, Purpose::Apply, replies.drop_last()).0;
        &&& replies.len() > 0
        &&& replies.last() is Applied
        &&& before.next == state.next
        &&& state.next < tokens.len()
        &&& before.phase matches Phase::Applying { tree, .. } && decided == (
            tree,
            state.successful,
            state.failures,
        )
    }
    &&& state.phase matches Phase::Counting { tree, .. } ==> all == (
        tree,
        state.successful,
        state.failures,
    )
    &&& state.phase matches Phase::Building { tree, .. } ==> all == (
        tree,
        state.successful,
        state.failures,
    )
    &&& state.phase matches Phase::Inspecting { tree, .. } ==> all == (
        tree,
        state.successful,
        state.failures,
    )
    &&& action matches Action::CommitTree { tree, .. } ==> all == (
        tree,
        state.successful,
        state.failures,
    )
}

proof fn followed_before(
    settings: BatchSettings,
    model: ClaimModel,
    root: ObjectId,
    replies: Seq<Reply>,
)
    requires
        replies.len() > 0,
        follows(settings, model, root, replies),
    ensures
        follows(settings, model, root, replies.drop_last()),
{
    let earlier = replies.drop_last();
    assert forall|at: int| 0 <= at < earlier.len() implies #[trigger] reply_follows(
        settings,
        model,
        root,
        earlier,
        at,
    ) by {
        assert(reply_follows(settings, model, root, replies, at));
        assert(earlier.take(at) =~= replies.take(at));
        if at > 0 {
            assert(earlier.take(at - 1) =~= replies.take(at - 1));
        } else {
            assert(run(settings, Purpose::Apply, earlier.take(0)).0.phase !is Staging);
        }
    }
}

proof fn run_is_modelled(
    settings: BatchSettings,
    model: ClaimModel,
    root: ObjectId,
    replies: Seq<Reply>,
)
    requires
        follows(settings, model, root, replies),
    ensures
        is_modelled(settings, model, root, replies),
    decreases replies.len(),
{
    if replies.len() > 0 {
        let earlier = replies.drop_last();
        followed_before(settings, model, root, replies);
        run_is_modelled(settings, model, root, earlier);
        run_is_sound(settings, Purpose::Apply, earlier);
        run_decides(settings, earlier);
        let at = replies.len() - 1;
        assert(reply_follows(settings, model, root, replies, at));
        assert(replies.take(at) =~= earlier);
        assert(replies.len() > 1 ==> replies.take(at - 1) =~= earlier.drop_last());
        step_is_modelled(settings, model, root, replies);
    }
}

#[verifier::spinoff_prover]
#[verifier::rlimit(80)]
proof fn step_is_modelled(
    settings: BatchSettings,
    model: ClaimModel,
    root: ObjectId,
    replies: Seq<Reply>,
)
    requires
        replies.len() > 0,
        is_modelled(settings, model, root, replies.drop_last()),
        has_decided(settings, run(settings, Purpose::Apply, replies.drop_last()).0),
        run(settings, Purpose::Apply, replies.drop_last()).0.purpose == Purpose::Apply,
        reply_follows(settings, model, root, replies, replies.len() - 1),
        replies.take(replies.len() - 1) == replies.drop_last(),
        replies.len() > 1 ==> replies.take(replies.len() - 2) == replies.drop_last().drop_last(),
    ensures
        is_modelled(settings, model, root, replies),
{
    let earlier = replies.drop_last();
    let tokens = claim_tokens(settings.claims@);
    let (state, action) = run(settings, Purpose::Apply, earlier);
    let next = stepped(settings, state, replies.last()).0;
    assert(settings.claims.len() == settings.claims@.len());
    assert(tokens.take(0) =~= Seq::<ClaimToken>::empty());
    assert(tokens.take(tokens.len() as int) =~= tokens);
    if state.next < tokens.len() {
        assert(tokens.take(state.next + 1).drop_last() =~= tokens.take(state.next as int));
        assert(tokens.take(state.next + 1).last() == settings.claims@[state.next as int].token);
    }
    if state.phase is Rooting {
        assert(state.successful =~= Seq::<ClaimToken>::empty());
        assert(state.failures =~= Seq::<RequestFailure>::empty());
    }
}

/// What a run commits is what its claims make of the tree that it began with, one on top of the
/// other, and what it counts as successes and as failures is what was applied and what was
/// refused.
pub proof fn commits_hold_what_was_applied(
    settings: BatchSettings,
    model: ClaimModel,
    root: ObjectId,
    replies: Seq<Reply>,
)
    requires
        follows(settings, model, root, replies),
    ensures
        ({
            let (state, action) = run(settings, Purpose::Apply, replies);
            action matches Action::CommitTree { tree, .. } ==> modelled(
                model,
                root,
                claim_tokens(settings.claims@),
            ) == (tree, state.successful, state.failures)
        }),
{
    run_is_modelled(settings, model, root, replies);
}

/// The claims that were applied give, without those that were refused, the same tree again, and
/// none of them is refused.
pub proof fn successes_stand_alone(model: ClaimModel, root: ObjectId, tokens: Seq<ClaimToken>)
    ensures
        ({
            let (tree, successful, failures) = modelled(model, root, tokens);
            modelled(model, root, successful) == (tree, successful, Seq::<RequestFailure>::empty())
        }),
    decreases tokens.len(),
{
    if tokens.len() > 0 {
        successes_stand_alone(model, root, tokens.drop_last());
        let (tree, successful, failures) = modelled(model, root, tokens.drop_last());
        if model(tree, tokens.last()) is Ok {
            let more = successful.push(tokens.last());
            assert(more.drop_last() =~= successful);
        }
    }
}

/// A request either commits completely or has no effect on the content: a run on the claims that
/// succeeded in another run, without those that failed there, commits the same tree with the same
/// successes and without a failure.
pub proof fn requests_commit_completely_or_not_at_all(
    settings: BatchSettings,
    replies: Seq<Reply>,
    succeeding: BatchSettings,
    others: Seq<Reply>,
    model: ClaimModel,
    root: ObjectId,
)
    requires
        follows(settings, model, root, replies),
        follows(succeeding, model, root, others),
        claim_tokens(succeeding.claims@) == run(settings, Purpose::Apply, replies).0.successful,
    ensures
        ({
            let (state, action) = run(settings, Purpose::Apply, replies);
            let (other, other_action) = run(succeeding, Purpose::Apply, others);
            action matches Action::CommitTree { tree, .. } ==> (
            other_action matches Action::CommitTree { tree: other_tree, .. } ==> {
                &&& other_tree == tree
                &&& other.successful == state.successful
                &&& other.failures == Seq::<RequestFailure>::empty()
            })
        }),
{
    commits_hold_what_was_applied(settings, model, root, replies);
    commits_hold_what_was_applied(succeeding, model, root, others);
    successes_stand_alone(model, root, claim_tokens(settings.claims@));
}

/// The tree at which the worktree of a run stands, as the replies to its orders say: it stands
/// nowhere while a claim is being applied or was refused, until it is staged or reset.
pub open spec fn standing_tree(settings: BatchSettings, replies: Seq<Reply>) -> Option<ObjectId>
    decreases replies.len(),
{
    if replies.len() == 0 {
        None
    } else {
        match (run(settings, Purpose::Apply, replies.drop_last()).1, replies.last()) {
            (Action::ResolveTree, Reply::Object(tree)) => Some(tree),
            (Action::StageTree, Reply::Object(tree)) => Some(tree),
            (Action::ResetWorktree { tree }, Reply::Done) => Some(tree),
            (Action::ApplyClaim { .. }, _) => None,
            _ => standing_tree(settings, replies.drop_last()),
        }
    }
}

/// The tree of the last success of a run, or the one that it began with.
pub open spec fn kept_tree(settings: BatchSettings, replies: Seq<Reply>) -> Option<ObjectId>
    decreases replies.len(),
{
    if replies.len() == 0 {
        None
    } else {
        match (run(settings, Purpose::Apply, replies.drop_last()).1, replies.last()) {
            (Action::ResolveTree, Reply::Object(tree)) => Some(tree),
            (Action::StageTree, Reply::Object(tree)) => Some(tree),
            _ => kept_tree(settings, replies.drop_last()),
        }
    }
}

/// The tree of a phase in which the worktree stands at the last success.
pub(crate) open spec fn tree_of(phase: Phase) -> Option<ObjectId> {
    match phase {
        Phase::Applying { tree, .. } => Some(tree),
        Phase::Counting { tree, .. } => Some(tree),
        Phase::Building { tree, .. } => Some(tree),
        Phase::Inspecting { tree, .. } => Some(tree),
        _ => None,
    }
}

pub(crate) open spec fn keeps_standing(settings: BatchSettings, replies: Seq<Reply>) -> bool {
    let (state, action) = run(settings, Purpose::Apply, replies);
    let kept = kept_tree(settings, replies);
    let standing = standing_tree(settings, replies);
    &&& action is ResolveTree <==> state.phase is Rooting
    &&& action is StageTree <==> state.phase is Staging
    &&& action is ApplyClaim <==> state.phase is Applying
    &&& action is TrialBuild <==> state.phase is Building
    &&& action matches Action::ResetWorktree { tree } ==> (state.phase matches Phase::Resetting {
        tree: undone,
        ..
    } && undone == tree)
    &&& state.phase matches Phase::Resetting { tree, .. } ==> action == (ActionView::ResetWorktree {
        tree,
    }) && kept == Some(tree)
    &&& tree_of(state.phase) is Some ==> kept == tree_of(state.phase) && standing == kept
    &&& action matches Action::CommitTree { tree, .. } ==> kept == Some(tree) && standing == kept
    &&& action matches Action::ApplyClaim { index } ==> index == state.next
}

#[verifier::spinoff_prover]
#[verifier::rlimit(80)]
proof fn step_keeps_standing(settings: BatchSettings, replies: Seq<Reply>)
    requires
        replies.len() > 0,
        keeps_standing(settings, replies.drop_last()),
        run(settings, Purpose::Apply, replies.drop_last()).0.purpose == Purpose::Apply,
        has_decided(settings, run(settings, Purpose::Apply, replies.drop_last()).0),
    ensures
        keeps_standing(settings, replies),
{
}

pub(crate) proof fn run_keeps_standing(settings: BatchSettings, replies: Seq<Reply>)
    ensures
        keeps_standing(settings, replies),
    decreases replies.len(),
{
    if replies.len() > 0 {
        run_keeps_standing(settings, replies.drop_last());
        run_is_sound(settings, Purpose::Apply, replies.drop_last());
        run_decides(settings, replies.drop_last());
        step_keeps_standing(settings, replies);
    }
}

/// What fails leaves nothing behind: a claim is applied, a worktree is built and a tree is
/// committed only while the worktree stands at the tree of the last success, or at the one that
/// the run began with.
pub proof fn failures_leave_nothing_behind(settings: BatchSettings, replies: Seq<Reply>)
    ensures
        ({
            let action = run(settings, Purpose::Apply, replies).1;
            let kept = kept_tree(settings, replies);
            &&& action is ApplyClaim || action is TrialBuild || action is CommitTree ==> kept is Some
                && standing_tree(settings, replies) == kept
            &&& action matches Action::CommitTree { tree, .. } ==> kept == Some(tree)
        }),
{
    run_keeps_standing(settings, replies);
}

/// The tree that a run staged last, if it staged one.
pub open spec fn last_staged(settings: BatchSettings, replies: Seq<Reply>) -> Option<ObjectId>
    decreases replies.len(),
{
    if replies.len() == 0 {
        None
    } else {
        match (run(settings, Purpose::Apply, replies.drop_last()).0.phase, replies.last()) {
            (Phase::Staging { .. }, Reply::Object(tree)) => Some(tree),
            _ => last_staged(settings, replies.drop_last()),
        }
    }
}

spec fn keeps_last(settings: BatchSettings, replies: Seq<Reply>) -> bool {
    let (state, action) = run(settings, Purpose::Apply, replies);
    let staged = last_staged(settings, replies);
    &&& stage(state.phase) <= 2 ==> state.successful.len() == 0
    &&& state.phase matches Phase::Applying { tree, .. } ==> state.successful.len() > 0 ==> staged
        == Some(tree)
    &&& state.phase matches Phase::Resetting { tree, .. } ==> state.successful.len() > 0 ==> staged
        == Some(tree)
    &&& state.phase matches Phase::Counting { tree, .. } ==> staged == Some(tree)
    &&& state.phase matches Phase::Building { tree, .. } ==> staged == Some(tree)
    &&& state.phase matches Phase::Inspecting { tree, .. } ==> staged == Some(tree)
    &&& action matches Action::CommitTree { tree, .. } ==> staged == Some(tree)
}

#[verifier::spinoff_prover]
#[verifier::rlimit(80)]
proof fn step_keeps_last(settings: BatchSettings, replies: Seq<Reply>)
    requires
        replies.len() > 0,
        keeps_last(settings, replies.drop_last()),
        run(settings, Purpose::Apply, replies.drop_last()).0.purpose == Purpose::Apply,
        has_decided(settings, run(settings, Purpose::Apply, replies.drop_last()).0),
        has_decided(settings, run(settings, Purpose::Apply, replies).0),
    ensures
        keeps_last(settings, replies),
{
}

/// The tree that a run commits is the one that its last success staged: nothing that failed
/// behind it is in it.
pub proof fn commits_hold_the_last_success(settings: BatchSettings, replies: Seq<Reply>)
    ensures
        run(settings, Purpose::Apply, replies).1 matches Action::CommitTree { tree, .. }
            ==> last_staged(settings, replies) == Some(tree),
{
    run_keeps_last(settings, replies);
}

proof fn run_keeps_last(settings: BatchSettings, replies: Seq<Reply>)
    ensures
        keeps_last(settings, replies),
    decreases replies.len(),
{
    if replies.len() > 0 {
        run_keeps_last(settings, replies.drop_last());
        run_is_sound(settings, Purpose::Apply, replies.drop_last());
        run_decides(settings, replies.drop_last());
        run_decides(settings, replies);
        step_keeps_last(settings, replies);
    }
}

/// Whether two tokens stand one behind the other in a list.
pub open spec fn one_behind(all: Seq<ClaimToken>, first: ClaimToken, second: ClaimToken) -> bool {
    exists|i: int, j: int|
        0 <= i < j < all.len() && #[trigger] all[i] == first && #[trigger] all[j] == second
}

/// Whether tokens are all in a list, and stand in its order.
pub open spec fn in_order_of(tokens: Seq<ClaimToken>, all: Seq<ClaimToken>) -> bool {
    &&& forall|i: int| 0 <= i < tokens.len() ==> all.contains(#[trigger] tokens[i])
    &&& forall|i: int, j: int|
        0 <= i < j < tokens.len() ==> one_behind(all, #[trigger] tokens[i], #[trigger] tokens[j])
}

proof fn order_stays(tokens: Seq<ClaimToken>, all: Seq<ClaimToken>, count: int)
    requires
        0 <= count < all.len(),
        in_order_of(tokens, all.take(count)),
    ensures
        in_order_of(tokens, all.take(count + 1)),
        in_order_of(tokens.push(all[count]), all.take(count + 1)),
{
    let earlier = all.take(count);
    let later = all.take(count + 1);
    let more = tokens.push(all[count]);
    assert forall|i: int| 0 <= i < tokens.len() implies later.contains(#[trigger] tokens[i]) by {
        let at = choose|at: int| 0 <= at < earlier.len() && earlier[at] == tokens[i];
        assert(later[at] == tokens[i]);
    }
    assert forall|i: int, j: int| 0 <= i < j < tokens.len() implies one_behind(
        later,
        #[trigger] tokens[i],
        #[trigger] tokens[j],
    ) by {
        let (p, q) = choose|p: int, q: int|
            0 <= p < q < earlier.len() && #[trigger] earlier[p] == tokens[i]
                && #[trigger] earlier[q] == tokens[j];
        assert(later[p] == tokens[i] && later[q] == tokens[j]);
    }
    assert(later[count] == all[count]);
    assert forall|i: int| 0 <= i < more.len() implies later.contains(#[trigger] more[i]) by {
        if i < tokens.len() {
            assert(more[i] == tokens[i]);
        }
    }
    assert forall|i: int, j: int| 0 <= i < j < more.len() implies one_behind(
        later,
        #[trigger] more[i],
        #[trigger] more[j],
    ) by {
        assert(more[i] == tokens[i]);
        if j < tokens.len() {
            assert(more[j] == tokens[j]);
        } else {
            let at = choose|at: int| 0 <= at < earlier.len() && earlier[at] == tokens[i];
            assert(later[at] == more[i] && later[count] == more[j]);
        }
    }
}

/// Whether what a run has decided stands in the order of the claims.
spec fn is_in_order(settings: BatchSettings, state: TransactionView) -> bool {
    let decided = claim_tokens(settings.claims@).take(state.next as int);
    &&& state.next <= settings.claims@.len()
    &&& in_order_of(state.successful, decided)
    &&& in_order_of(failure_tokens(state.failures), decided)
}

#[verifier::spinoff_prover]
#[verifier::rlimit(80)]
proof fn step_is_in_order(settings: BatchSettings, state: TransactionView, reply: Reply)
    requires
        state.purpose == Purpose::Apply,
        has_decided(settings, state),
        is_in_order(settings, state),
    ensures
        ({
            let (next, action) = stepped(settings, state, reply);
            &&& is_in_order(settings, next)
            &&& action matches Action::Finish(Ok(Some(outcome))) ==> {
                &&& in_order_of(outcome_successful(outcome), claim_tokens(settings.claims@))
                &&& in_order_of(
                    failure_tokens(outcome_failures(outcome)),
                    claim_tokens(settings.claims@),
                )
            }
        }),
{
    let tokens = claim_tokens(settings.claims@);
    assert(settings.claims.len() == settings.claims@.len());
    assert(tokens.take(tokens.len() as int) =~= tokens);
    if state.next < tokens.len() {
        order_stays(state.successful, tokens, state.next as int);
        order_stays(failure_tokens(state.failures), tokens, state.next as int);
        assert forall|failure: RequestFailure| #[trigger] failure_tokens(
            state.failures.push(failure),
        ) == failure_tokens(state.failures).push(failure.token) by {
            assert(failure_tokens(state.failures.push(failure)) =~= failure_tokens(
                state.failures,
            ).push(failure.token));
        }
    }
}

proof fn run_is_in_order(settings: BatchSettings, replies: Seq<Reply>)
    ensures
        is_in_order(settings, run(settings, Purpose::Apply, replies).0),
    decreases replies.len(),
{
    if replies.len() > 0 {
        let earlier = replies.drop_last();
        run_is_in_order(settings, earlier);
        run_is_sound(settings, Purpose::Apply, earlier);
        run_decides(settings, earlier);
        step_is_in_order(settings, run(settings, Purpose::Apply, earlier).0, replies.last());
    }
}

/// The successes and the failures of an outcome each stand in the order of the claims.
pub proof fn outcomes_stand_in_claim_order(settings: BatchSettings, replies: Seq<Reply>)
    ensures
        run(settings, Purpose::Apply, replies).1 matches Action::Finish(Ok(Some(outcome))) ==> {
            &&& in_order_of(outcome_successful(outcome), claim_tokens(settings.claims@))
            &&& in_order_of(
                failure_tokens(outcome_failures(outcome)),
                claim_tokens(settings.claims@),
            )
        },
{
    if replies.len() > 0 {
        let earlier = replies.drop_last();
        run_is_in_order(settings, earlier);
        run_is_sound(settings, Purpose::Apply, earlier);
        run_decides(settings, earlier);
        step_is_in_order(settings, run(settings, Purpose::Apply, earlier).0, replies.last());
    }
}

} // verus!
