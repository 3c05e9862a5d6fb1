//! What holds of every poll: which requests it takes and which it leaves.
use crate::ids::RequestId;
use crate::journal::{token_requests, ClaimToken};
use crate::runtime::{
    cycled, poll_begun, Cycle, CycleAction, CycleActionView, CycleOutcome, CycleReply, CycleStep, OpenClaim,
    PollSettings, RuntimeView, WorkerPollOutcome,
};
use crate::schedule::PendingSnapshot;
use vstd::prelude::*;

verus! {

/// Where a poll stands after replies, and what it does next.
pub open spec fn poll_run(
    runtime: RuntimeView,
    settings: PollSettings,
    replies: Seq<CycleReply>,
) -> CycleStep
    decreases replies.len(),
{
    if replies.len() == 0 {
        poll_begun(runtime, settings)
    } else {
        cycled(poll_run(runtime, settings, replies.drop_last()).0, replies.last())
    }
}

/// Whether the requests of claims were accepted no later than a bound.
pub open spec fn within(
    claims: Seq<ClaimToken>,
    sequences: spec_fn(RequestId) -> u64,
    bound: u64,
) -> bool {
    forall|i: int| 0 <= i < claims.len() ==> sequences((#[trigger] claims[i]).request_id) <= bound
}

/// Whether the queue answers an order to claim requests through a bound with no later ones.
pub open spec fn queue_keeps_bounds(
    runtime: RuntimeView,
    settings: PollSettings,
    replies: Seq<CycleReply>,
    sequences: spec_fn(RequestId) -> u64,
) -> bool {
    forall|at: int|
        #![trigger replies[at]]
        0 <= at < replies.len() ==> (poll_run(runtime, settings, replies.take(at)).1 matches
            CycleAction::Claim { claim, .. } ==> (claim.maximum_sequence matches Some(bound) ==> (
        replies[at] matches CycleReply::Claims { claims, .. } ==> within(claims@, sequences, bound))))
}

/// Whether a poll observed a snapshot.
pub open spec fn was_observed(
    runtime: RuntimeView,
    settings: PollSettings,
    replies: Seq<CycleReply>,
    snapshot: PendingSnapshot,
) -> bool {
    exists|at: int|
        0 <= at < replies.len() && #[trigger] poll_run(
            runtime,
            settings,
            replies.take(at),
        ).1 is ScanPending && replies[at] == CycleReply::Snapshot(snapshot)
}

/// The batch that a cycle claims.
pub open spec fn claim_of(cycle: Cycle) -> Option<OpenClaim> {
    match cycle {
        Cycle::Claiming(claim) => Some(claim),
        Cycle::Pausing { claim, .. } => Some(claim),
        Cycle::Claimed { claim, .. } => Some(claim),
        Cycle::Processing { claim, .. } => Some(claim),
        Cycle::Waking { claim, .. } => Some(claim),
        _ => None,
    }
}

/// Whether the claims of a poll are exactly what the queue gave for an order to claim no request
/// behind the last one of a snapshot.
pub open spec fn were_claimed(
    runtime: RuntimeView,
    settings: PollSettings,
    replies: Seq<CycleReply>,
    claims: Seq<ClaimToken>,
    snapshot: PendingSnapshot,
) -> bool {
    exists|at: int|
        0 <= at < replies.len() && (#[trigger] poll_run(
            runtime,
            settings,
            replies.take(at),
        ).1 matches CycleAction::Claim { claim, .. } && claim.maximum_sequence == Some(
            snapshot.maximum_sequence,
        )) && (replies[at] matches CycleReply::Claims { claims: given, .. } && given@ == claims)
}

/// Whether what a poll claims, or has claimed, was ordered within a snapshot that it observed.
spec fn keeps_to(
    runtime: RuntimeView,
    settings: PollSettings,
    replies: Seq<CycleReply>,
    snapshot: PendingSnapshot,
) -> bool {
    let state = poll_run(runtime, settings, replies).0;
    &&& was_observed(runtime, settings, replies, snapshot)
    &&& claim_of(state.cycle) matches Some(claim) ==> claim.maximum_sequence == Some(
        snapshot.maximum_sequence,
    )
    &&& state.cycle is Claimed || state.cycle is Processing || state.cycle is Waking
        || state.cycle is Rest ==> were_claimed(
        runtime,
        settings,
        replies,
        state.claims,
        snapshot,
    )
}

/// What holds of a poll, by where it stands.
spec fn keeps_bounds(
    runtime: RuntimeView,
    settings: PollSettings,
    replies: Seq<CycleReply>,
) -> bool {
    let (state, action) = poll_run(runtime, settings, replies);
    &&& !(state.cycle is Discarding)
    &&& state.cycle is Observing ==> action is ScanPending
    &&& state.cycle matches Cycle::Claiming(claim) ==> (action matches CycleAction::Claim {
        claim: ordered,
        ..
    } && ordered == claim)
    &&& action is Claim ==> state.cycle is Claiming
    &&& state.cycle matches Cycle::Observed(_, snapshot) ==> was_observed(
        runtime,
        settings,
        replies,
        snapshot,
    )
    &&& claim_of(state.cycle) is Some || is_processed((state, action)) ==> exists|snapshot: PendingSnapshot| #[trigger]
        keeps_to(runtime, settings, replies, snapshot)
}

proof fn observed_stays(
    runtime: RuntimeView,
    settings: PollSettings,
    replies: Seq<CycleReply>,
    snapshot: PendingSnapshot,
)
    requires
        replies.len() > 0,
        was_observed(runtime, settings, replies.drop_last(), snapshot) || (poll_run(
            runtime,
            settings,
            replies.drop_last(),
        ).1 is ScanPending && replies.last() == CycleReply::Snapshot(snapshot)),
    ensures
        was_observed(runtime, settings, replies, snapshot),
{
    let earlier = replies.drop_last();
    if was_observed(runtime, settings, earlier, snapshot) {
        let at = choose|at: int|
            0 <= at < earlier.len() && #[trigger] poll_run(
                runtime,
                settings,
                earlier.take(at),
            ).1 is ScanPending && earlier[at] == CycleReply::Snapshot(snapshot);
        assert(earlier.take(at) =~= replies.take(at));
        assert(poll_run(runtime, settings, replies.take(at)).1 is ScanPending);
    } else {
        let at = replies.len() - 1;
        assert(replies.take(at) =~= earlier);
        assert(poll_run(runtime, settings, replies.take(at)).1 is ScanPending);
    }
}

/// Whether a step says that a batch was processed.
pub open spec fn is_processed(step: CycleStep) -> bool {
    step.1 matches CycleAction::Finish(
        Ok(CycleOutcome::Poll(WorkerPollOutcome::Processed { .. })),
    )
}

/// Whether a cycle has its claims.
spec fn has_claims(cycle: Cycle) -> bool {
    cycle is Claimed || cycle is Processing || cycle is Waking
}

#[verifier::spinoff_prover]
#[verifier::rlimit(40)]
proof fn cycled_keeps(before: RuntimeView, reply: CycleReply)
    requires
        !(before.cycle is Discarding),
    ensures
        ({
            let (state, action) = cycled(before, reply);
            &&& !(state.cycle is Discarding)
            &&& state.cycle is Observing ==> action is ScanPending
            &&& state.cycle matches Cycle::Claiming(claim) ==> (action matches CycleAction::Claim {
                claim: ordered,
                ..
            } && ordered == claim)
            &&& state.cycle matches Cycle::Observed(_, snapshot) ==> before.cycle is Observing
                && reply == CycleReply::Snapshot(snapshot)
            &&& claim_of(state.cycle) matches Some(claim) ==> claim_of(before.cycle) == Some(claim)
                || (before.cycle matches Cycle::Observed(_, snapshot) && claim.maximum_sequence
                == Some(snapshot.maximum_sequence) && state.cycle is Claiming)
            &&& has_claims(state.cycle) || is_processed((state, action)) ==> {
                ||| before.cycle is Claiming && (reply matches CycleReply::Claims { claims, .. }
                    && state.claims == claims@) && has_claims(state.cycle)
                ||| has_claims(before.cycle) && state.claims == before.claims
            }
            &&& action is Claim ==> state.cycle is Claiming
            &&& is_processed((state, action)) ==> state.cycle is Rest
            &&& action is Process ==> state.cycle is Processing
        }),
{
}

proof fn claims_stay(
    runtime: RuntimeView,
    settings: PollSettings,
    replies: Seq<CycleReply>,
    claims: Seq<ClaimToken>,
    snapshot: PendingSnapshot,
)
    requires
        replies.len() > 0,
        were_claimed(runtime, settings, replies.drop_last(), claims, snapshot) || ((poll_run(
            runtime,
            settings,
            replies.drop_last(),
        ).1 matches CycleAction::Claim { claim, .. } && claim.maximum_sequence == Some(
            snapshot.maximum_sequence,
        )) && (replies.last() matches CycleReply::Claims { claims: given, .. } && given@
            == claims)),
    ensures
        were_claimed(runtime, settings, replies, claims, snapshot),
{
    let earlier = replies.drop_last();
    if were_claimed(runtime, settings, earlier, claims, snapshot) {
        let at = choose|at: int|
            0 <= at < earlier.len() && (#[trigger] poll_run(
                runtime,
                settings,
                earlier.take(at),
            ).1 matches CycleAction::Claim { claim, .. } && claim.maximum_sequence == Some(
                snapshot.maximum_sequence,
            )) && (earlier[at] matches CycleReply::Claims { claims: given, .. } && given@
                == claims);
        assert(earlier.take(at) =~= replies.take(at));
        assert(poll_run(runtime, settings, replies.take(at)).1 is Claim);
    } else {
        let at = replies.len() - 1;
        assert(replies.take(at) =~= earlier);
        assert(poll_run(runtime, settings, replies.take(at)).1 is Claim);
    }
}

proof fn run_keeps_bounds(
    runtime: RuntimeView,
    settings: PollSettings,
    replies: Seq<CycleReply>,
)
    ensures
        keeps_bounds(runtime, settings, replies),
    decreases replies.len(),
{
    if replies.len() > 0 {
        let earlier = replies.drop_last();
        run_keeps_bounds(runtime, settings, earlier);
        let (before, ordered) = poll_run(runtime, settings, earlier);
        let step = poll_run(runtime, settings, replies);
        assert(step == cycled(before, replies.last()));
        step_keeps_bounds(runtime, settings, replies, before, ordered, step);
    }
}

#[verifier::spinoff_prover]
proof fn step_keeps_bounds(
    runtime: RuntimeView,
    settings: PollSettings,
    replies: Seq<CycleReply>,
    before: RuntimeView,
    ordered: CycleActionView,
    step: CycleStep,
)
    requires
        replies.len() > 0,
        keeps_bounds(runtime, settings, replies.drop_last()),
        poll_run(runtime, settings, replies.drop_last()) == (before, ordered),
        poll_run(runtime, settings, replies) == step,
        step == cycled(before, replies.last()),
    ensures
        keeps_bounds(runtime, settings, replies),
{
    let earlier = replies.drop_last();
    cycled_keeps(before, replies.last());
    let state = step.0;
    if let Cycle::Observed(_, snapshot) = state.cycle {
        observed_stays(runtime, settings, replies, snapshot);
    }
    if claim_of(state.cycle) is Some || is_processed(step) {
        if let Cycle::Observed(_, snapshot) = before.cycle {
            observed_stays(runtime, settings, replies, snapshot);
            assert(keeps_to(runtime, settings, replies, snapshot));
        } else {
            assert(claim_of(before.cycle) is Some);
            let snapshot = choose|snapshot: PendingSnapshot| #[trigger]
                keeps_to(runtime, settings, earlier, snapshot);
            observed_stays(runtime, settings, replies, snapshot);
            if has_claims(state.cycle) || is_processed(step) {
                claims_stay(runtime, settings, replies, state.claims, snapshot);
            }
            assert(keeps_to(runtime, settings, replies, snapshot));
        }
    }
}

/// A poll asks the queue for no request behind the last one of a snapshot that it observed, and
/// hands over, and counts as processed, exactly what the queue gave for such an order.
pub proof fn polls_keep_to_their_snapshot(
    runtime: RuntimeView,
    settings: PollSettings,
    replies: Seq<CycleReply>,
)
    ensures
        ({
            let step = poll_run(runtime, settings, replies);
            &&& step.1 matches CycleAction::Claim { claim, .. } ==> exists|
                snapshot: PendingSnapshot,
            | #[trigger]
                was_observed(runtime, settings, replies, snapshot) && claim.maximum_sequence
                    == Some(snapshot.maximum_sequence)
            &&& step.1 is Process || is_processed(step) ==> exists|snapshot: PendingSnapshot|
                #[trigger]
                was_observed(runtime, settings, replies, snapshot) && were_claimed(
                    runtime,
                    settings,
                    replies,
                    step.0.claims,
                    snapshot,
                )
        }),
{
    run_keeps_bounds(runtime, settings, replies);
    let step = poll_run(runtime, settings, replies);
    if step.1 is Claim || step.1 is Process || is_processed(step) {
        if replies.len() > 0 {
            let before = poll_run(runtime, settings, replies.drop_last()).0;
            assert(step == cycled(before, replies.last()));
            run_keeps_bounds(runtime, settings, replies.drop_last());
            cycled_keeps(before, replies.last());
        }
        let snapshot = choose|snapshot: PendingSnapshot| #[trigger]
            keeps_to(runtime, settings, replies, snapshot);
        assert(was_observed(runtime, settings, replies, snapshot));
    }
}

/// A processed snapshot leaves later arrivals pending: what a poll hands over for processing, and
/// what it has processed when it says so, was accepted no later than the last request of the
/// snapshot that it observed. Whatever was accepted later is still pending, once the claims are
/// taken out of what is.
pub proof fn later_arrivals_stay_pending(
    runtime: RuntimeView,
    settings: PollSettings,
    replies: Seq<CycleReply>,
    sequences: spec_fn(RequestId) -> u64,
    pending: Set<RequestId>,
)
    requires
        queue_keeps_bounds(runtime, settings, replies, sequences),
    ensures
        ({
            let step = poll_run(runtime, settings, replies);
            let claims = step.0.claims;
            let left = pending.difference(token_requests(claims).to_set());
            step.1 is Process || is_processed(step) ==> exists|snapshot: PendingSnapshot| #[trigger]
                was_observed(runtime, settings, replies, snapshot) && within(
                    claims,
                    sequences,
                    snapshot.maximum_sequence,
                ) && forall|request: RequestId|
                    pending.contains(request) && sequences(request) > snapshot.maximum_sequence
                        ==> #[trigger] left.contains(request)
        }),
{
    polls_keep_to_their_snapshot(runtime, settings, replies);
    let step = poll_run(runtime, settings, replies);
    let claims = step.0.claims;
    let claimed = token_requests(claims);
    let left = pending.difference(claimed.to_set());
    if step.1 is Process || is_processed(step) {
        let snapshot = choose|snapshot: PendingSnapshot| #[trigger]
            was_observed(runtime, settings, replies, snapshot) && were_claimed(
                runtime,
                settings,
                replies,
                claims,
                snapshot,
            );
        let at = choose|at: int|
            0 <= at < replies.len() && (#[trigger] poll_run(
                runtime,
                settings,
                replies.take(at),
            ).1 matches CycleAction::Claim { claim, .. } && claim.maximum_sequence == Some(
                snapshot.maximum_sequence,
            )) && (replies[at] matches CycleReply::Claims { claims: given, .. } && given@
                == claims);
        assert(replies[at] is Claims);
        assert(within(claims, sequences, snapshot.maximum_sequence));
        assert forall|request: RequestId| pending.contains(request) && sequences(request)
            > snapshot.maximum_sequence implies #[trigger] left.contains(request) by {
            if claimed.contains(request) {
                let i = choose|i: int| 0 <= i < claimed.len() && claimed[i] == request;
                assert(sequences(claims[i].request_id) <= snapshot.maximum_sequence);
            }
        }
        assert(was_observed(runtime, settings, replies, snapshot));
    }
}

} // verus!
