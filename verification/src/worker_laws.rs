//! When the worker acts and what it does then, said of times, counts and commits.
use crate::clock::Timestamp;
use crate::git_text::{is_object_id, ObjectId};
use crate::ids::{revision_of, Revision};
use crate::journal::BatchCommitOutcome;
use crate::replication::{
    backoff, destination_of, doubled, doublings, is_destination, is_remote_name, is_state,
    push_settled, replication_finished, replication_step, PushResult, RemoteFacts,
    RemoteReplicationError, RemoteReplicationOutcome, ReplicationFailure, ReplicationState,
    ReplicationStep, ReplicationView,
};
use crate::runtime::{
    cycled, poll_begun, reported, run_begun, wait_after, CycleActionView, CycleOutcome, CycleReply,
    OpenClaim, PollSettings, ReplicationReport, RuntimeView, WorkerPollOutcome, WorkerRunOutcome,
};
use crate::schedule::{decided, BatchCloseReason, BatchReadiness, PendingSnapshot};
use vstd::prelude::*;

verus! {

/// The instants of times some nanoseconds later.
pub proof fn later_times_are_later(time: Timestamp, nanoseconds: int)
    requires
        time.calendar_holds(),
        time.reaches(nanoseconds),
    ensures
        time.plus(nanoseconds).instant() == time.instant() + nanoseconds,
        time.held_plus(nanoseconds).instant() == time.instant() + nanoseconds,
{
    time.readings_are_kept(nanoseconds);
}

/// Pending requests close when they are due: at once where one cannot be dated or as many wait as
/// a batch may have, and otherwise once the oldest has waited for the maximum age or none has come
/// for the debounce interval. Until then they wait for the earlier of the two times.
pub proof fn requests_close_when_they_are_due(
    snapshot: PendingSnapshot,
    maximum_requests: usize,
    debounce: int,
    maximum_age: int,
    now: Timestamp,
)
    requires
        snapshot.oldest_accepted_at is Some ==> snapshot.oldest_accepted_at->0.calendar_holds()
            && snapshot.oldest_accepted_at->0.reaches(maximum_age),
        snapshot.newest_accepted_at is Some ==> snapshot.newest_accepted_at->0.calendar_holds()
            && snapshot.newest_accepted_at->0.reaches(debounce),
    ensures
        ({
            let result = decided(snapshot, maximum_requests, debounce, maximum_age, now);
            let undated = snapshot.has_invalid_acceptance;
            let full = snapshot.requests >= maximum_requests;
            let dated = snapshot.oldest_accepted_at is Some && snapshot.newest_accepted_at is Some;
            let aged = snapshot.oldest_accepted_at->0.instant() + maximum_age;
            let quiet = snapshot.newest_accepted_at->0.instant() + debounce;
            let some = snapshot.requests > 0;
            let open = some && !undated && !full && dated;
            &&& result is Empty <==> snapshot.requests == 0
            &&& some && undated ==> result == (BatchReadiness::Ready {
                reason: BatchCloseReason::InvalidAcceptance,
            })
            &&& some && !undated && full ==> result == (BatchReadiness::Ready {
                reason: BatchCloseReason::MaximumRequests,
            })
            &&& some && !undated && !full && !dated ==> result == (BatchReadiness::Ready {
                reason: BatchCloseReason::InvalidAcceptance,
            })
            &&& open && now.instant() >= aged ==> result == (BatchReadiness::Ready {
                reason: BatchCloseReason::MaximumAge,
            })
            &&& open && now.instant() < aged && now.instant() >= quiet ==> result == (
            BatchReadiness::Ready { reason: BatchCloseReason::Debounce })
            &&& open && now.instant() < aged && now.instant() < quiet ==> (
            result matches BatchReadiness::Waiting { ready_at } && (ready_at.instant() == aged
                || ready_at.instant() == quiet) && ready_at.instant() <= aged && ready_at.instant()
                <= quiet)
        }),
{
    if let Some(oldest) = snapshot.oldest_accepted_at {
        later_times_are_later(oldest, maximum_age);
    }
    if let Some(newest) = snapshot.newest_accepted_at {
        later_times_are_later(newest, debounce);
    }
}

/// A poll that is not stopped does what its snapshot asks for: nothing where there is nothing,
/// nothing yet where requests wait, and where they are due it claims them for its batch, through
/// the last request of the snapshot and no more than a batch may have.
pub proof fn polls_do_what_is_due(
    runtime: RuntimeView,
    settings: PollSettings,
    snapshot: PendingSnapshot,
)
    requires
        runtime.ready,
    ensures
        ({
            let first = poll_begun(runtime, settings);
            let second = cycled(first.0, CycleReply::Stop(false));
            let third = cycled(second.0, CycleReply::Snapshot(snapshot));
            let fourth = cycled(third.0, CycleReply::Stop(false));
            let readiness = decided(
                snapshot,
                runtime.limits.spec_requests(),
                settings.schedule.spec_debounce(),
                settings.schedule.spec_maximum_age(),
                settings.now,
            );
            &&& first.1 is PollStop
            &&& second.1 == (CycleActionView::ScanPending {
                entries: runtime.limits.spec_scan_entries(),
            })
            &&& third.1 is PollStop
            &&& readiness is Empty ==> fourth.0.ready && fourth.1 == CycleActionView::Finish(
                Ok(CycleOutcome::Poll(WorkerPollOutcome::Idle)),
            )
            &&& readiness matches BatchReadiness::Waiting { ready_at } ==> fourth.0.ready
                && fourth.1 == CycleActionView::Finish(
                Ok(CycleOutcome::Poll(WorkerPollOutcome::Waiting { ready_at })),
            )
            &&& readiness matches BatchReadiness::Ready { reason } ==> fourth.1 == (
            CycleActionView::Claim {
                claim: OpenClaim {
                    batch_id: settings.batch_id,
                    maximum_sequence: Some(snapshot.maximum_sequence),
                    reason: Some(reason),
                },
                entries: runtime.limits.spec_scan_entries(),
                requests: runtime.limits.spec_requests(),
            })
        }),
{
}

/// A poll that is asked to stop stops, wherever it is asked, and the runtime begins no other.
pub proof fn stopped_polls_stop(
    runtime: RuntimeView,
    settings: PollSettings,
    snapshot: PendingSnapshot,
    scanned_entries: usize,
    observed_requests: usize,
)
    requires
        runtime.ready,
    ensures
        ({
            let halt = CycleActionView::Finish(
                Ok(CycleOutcome::Poll(WorkerPollOutcome::Stopped { failed_requests: 0 })),
            );
            let first = poll_begun(runtime, settings);
            let second = cycled(first.0, CycleReply::Stop(false));
            let whole = cycled(second.0, CycleReply::Snapshot(snapshot));
            let part = cycled(
                second.0,
                CycleReply::Scanning { scanned_entries, observed_requests },
            );
            &&& cycled(first.0, CycleReply::Stop(true)).1 == halt
            &&& cycled(whole.0, CycleReply::Stop(true)).1 == halt
            &&& cycled(part.0, CycleReply::Stop(true)).1 == halt
            &&& !cycled(first.0, CycleReply::Stop(true)).0.ready
            &&& !cycled(whole.0, CycleReply::Stop(true)).0.ready
            &&& !cycled(part.0, CycleReply::Stop(true)).0.ready
            &&& cycled(part.0, CycleReply::Stop(false)).1 == CycleActionView::Finish(
                Ok(
                    CycleOutcome::Poll(
                        WorkerPollOutcome::Scanning { scanned_entries, observed_requests },
                    ),
                ),
            )
            &&& cycled(part.0, CycleReply::Stop(false)).0.ready
        }),
{
}

/// What was claimed is processed, all of it and for its batch, and the outcome is what the batch
/// came to, with the number of requests that were rejected while they were claimed. Replication is
/// told of it where there is one. Without claims nothing is processed.
pub proof fn claimed_requests_are_processed(
    runtime: RuntimeView,
    claim: OpenClaim,
    claims: Vec<crate::journal::ClaimToken>,
    failed_requests: usize,
    outcome: BatchCommitOutcome,
)
    requires
        runtime.cycle == crate::runtime::Cycle::Claiming(claim),
    ensures
        ({
            let taken = cycled(runtime, CycleReply::Claims { claims, failed_requests });
            let ready = if claim.reason is Some {
                cycled(taken.0, CycleReply::Stop(false))
            } else {
                taken
            };
            let done = cycled(ready.0, CycleReply::Outcome(outcome));
            let ended = if runtime.replication {
                cycled(done.0, CycleReply::Done)
            } else {
                done
            };
            &&& claim.reason is Some ==> taken.1 is PollStop && cycled(
                taken.0,
                CycleReply::Stop(true),
            ).1 == CycleActionView::Finish(
                Ok(CycleOutcome::Poll(WorkerPollOutcome::Stopped { failed_requests })),
            )
            &&& claims@.len() > 0 ==> {
                &&& ready.1 == (CycleActionView::Process {
                    batch_id: claim.batch_id,
                    claims: claims@,
                    claim_failures: failed_requests,
                })
                &&& runtime.replication ==> done.1 is WakeReplication
                &&& ended.0.ready
                &&& claim.reason matches Some(reason) ==> ended.1 == CycleActionView::Finish(
                    Ok(
                        CycleOutcome::Poll(
                            WorkerPollOutcome::Processed {
                                reason,
                                batch_id: claim.batch_id,
                                outcome: outcome@,
                                claim_failures: failed_requests,
                            },
                        ),
                    ),
                )
                &&& claim.reason is None ==> ended.1 == CycleActionView::Finish(
                    Ok(
                        CycleOutcome::Run(
                            WorkerRunOutcome::Processed {
                                batch_id: claim.batch_id,
                                outcome: outcome@,
                                claim_failures: failed_requests,
                            },
                        ),
                    ),
                )
            }
            &&& claims@.len() == 0 ==> {
                &&& ready.0.ready
                &&& claim.reason matches Some(reason) ==> ready.1 == CycleActionView::Finish(
                    Ok(
                        CycleOutcome::Poll(
                            WorkerPollOutcome::ClosedWithoutCommit { reason, failed_requests },
                        ),
                    ),
                )
                &&& claim.reason is None && failed_requests == 0 ==> ready.1
                    == CycleActionView::Finish(Ok(CycleOutcome::Run(WorkerRunOutcome::Idle)))
                &&& claim.reason is None && failed_requests > 0 ==> ready.1
                    == CycleActionView::Finish(
                    Ok(
                        CycleOutcome::Run(
                            WorkerRunOutcome::ClosedWithoutProcessing { failed_requests },
                        ),
                    ),
                )
            }
        }),
{
}

/// A run without a poll discards what was observed and claims for its batch, with no bound but the
/// number of requests. While requests are still being claimed it claims on, and a poll looks for
/// shutdown in between.
pub proof fn runs_claim_for_their_batch(
    runtime: RuntimeView,
    batch_id: crate::ids::BatchId,
    failed_requests: usize,
)
    requires
        runtime.ready,
    ensures
        ({
            let claim = OpenClaim { batch_id, maximum_sequence: None, reason: None };
            let first = run_begun(runtime, batch_id);
            let second = cycled(first.0, CycleReply::Done);
            let ordered = CycleActionView::Claim {
                claim,
                entries: runtime.limits.spec_scan_entries(),
                requests: runtime.limits.spec_requests(),
            };
            &&& first.1 is DiscardObservation
            &&& second.1 == ordered
            &&& cycled(second.0, CycleReply::StillClaiming { failed_requests }).1 == ordered
        }),
{
}

/// A push that is needed sends the official commit to the branch of the destination. It is needed
/// unless that very commit is recorded as replicated there; it waits while a retry is recorded for
/// later. What is recorded of another destination does not count, and what is malformed is
/// refused.
pub proof fn pushes_send_the_official_commit(
    remote: Seq<char>,
    branch: Seq<char>,
    fingerprint: Revision,
    stored: Option<ReplicationView>,
    target: ObjectId,
    now: Timestamp,
)
    ensures
        ({
            let step = replication_step(remote, branch, fingerprint, stored, target, now);
            let same = stored is Some && stored->0.remote == remote && stored->0.branch == branch
                && stored->0.remote_fingerprint == fingerprint;
            let replicated = same && stored->0.replicated_commit == Some(target.spec_text());
            let early = same && stored->0.retry_at is Some && now.instant()
                < stored->0.retry_at->0.instant();
            let sound = stored is Some ==> is_state(stored->0);
            &&& !sound ==> step == Err::<
                ReplicationStep<ReplicationView, Seq<char>>,
                ReplicationFailure,
            >(RemoteReplicationError::InvalidState)
            &&& sound && replicated ==> step == Ok::<
                ReplicationStep<ReplicationView, Seq<char>>,
                ReplicationFailure,
            >(ReplicationStep::Done(RemoteReplicationOutcome::UpToDate { commit: target }))
            &&& sound && !replicated && early ==> step == Ok::<
                ReplicationStep<ReplicationView, Seq<char>>,
                ReplicationFailure,
            >(
                ReplicationStep::Done(
                    RemoteReplicationOutcome::Deferred {
                        commit: target,
                        consecutive_failures: stored->0.consecutive_failures,
                        retry_at: stored->0.retry_at->0,
                    },
                ),
            )
            &&& sound && !replicated && !early ==> (step matches Ok(
                ReplicationStep::Push { state, refspec },
            ) && refspec == target.spec_text() + ":refs/heads/"@ + branch && (same ==> state
                == stored->0) && (!same ==> state == (ReplicationState {
                schema_version: 1,
                remote,
                branch,
                remote_fingerprint: fingerprint,
                replicated_commit: None,
                consecutive_failures: 0,
                retry_at: None,
            })))
        }),
{
}

/// What is recorded of a destination is sound exactly where it is of this version, names a remote
/// and a branch, names a commit if it names anything, and has a retry exactly where it has
/// failures.
pub proof fn sound_records_retry_after_failures(state: ReplicationView)
    ensures
        is_state(state) <==> state.schema_version == 1 && is_remote_name(state.remote)
            && is_destination(state.branch) && (state.replicated_commit is Some ==> is_object_id(
            state.replicated_commit->0,
        )) && (state.retry_at is Some <==> state.consecutive_failures > 0),
{
}

/// A delay doubles with each further failure until it reaches its limit: it begins with the initial
/// one, and grows for thirty-one failures at most.
pub proof fn delays_double(initial: u128, maximum: u128, failures: u32)
    requires
        0 < initial <= maximum,
    ensures
        backoff(initial, maximum, 0) == initial,
        backoff(initial, maximum, 1) == initial,
        1 <= failures < 32 && 2 * backoff(initial, maximum, failures) <= maximum ==> backoff(
            initial,
            maximum,
            (failures + 1) as u32,
        ) == 2 * backoff(initial, maximum, failures),
        1 <= failures < 32 && 2 * backoff(initial, maximum, failures) > maximum ==> backoff(
            initial,
            maximum,
            (failures + 1) as u32,
        ) == maximum,
        failures >= 32 ==> backoff(initial, maximum, failures) == backoff(initial, maximum, 32),
{
    reveal_with_fuel(doubled, 2);
    if 1 <= failures < 32 {
        assert(doublings((failures + 1) as u32) == doublings(failures) + 1);
    }
}

/// A push that the remote took is recorded as replicated, and nothing is left to retry. One that
/// was refused counts as one more failure and is retried after its delay; what was replicated
/// before stays recorded. A cancelled one changes nothing.
pub proof fn pushes_are_recorded(
    initial: u128,
    maximum: u128,
    state: ReplicationView,
    target: ObjectId,
    completed_at: Timestamp,
)
    requires
        completed_at.calendar_holds(),
        state.consecutive_failures < u32::MAX,
        completed_at.reaches(
            backoff(initial, maximum, (state.consecutive_failures + 1) as u32) as int,
        ),
    ensures
        push_settled(initial, maximum, state, target, PushResult::Accepted) == Ok::<
            (RemoteReplicationOutcome, Option<ReplicationView>),
            ReplicationFailure,
        >(
            (
                RemoteReplicationOutcome::Pushed { commit: target },
                Some(
                    ReplicationState {
                        schema_version: state.schema_version,
                        remote: state.remote,
                        branch: state.branch,
                        remote_fingerprint: state.remote_fingerprint,
                        replicated_commit: Some(target.spec_text()),
                        consecutive_failures: 0,
                        retry_at: None,
                    },
                ),
            ),
        ),
        push_settled(initial, maximum, state, target, PushResult::Refused { completed_at }) matches Ok(
            (
                RemoteReplicationOutcome::Failed { commit, consecutive_failures, retry_at },
                Some(written),
            ),
        ) && commit == target && consecutive_failures == state.consecutive_failures + 1
            && retry_at.instant() == completed_at.instant() + backoff(
            initial,
            maximum,
            (state.consecutive_failures + 1) as u32,
        ) && written == (ReplicationState {
            schema_version: state.schema_version,
            remote: state.remote,
            branch: state.branch,
            remote_fingerprint: state.remote_fingerprint,
            replicated_commit: state.replicated_commit,
            consecutive_failures,
            retry_at: Some(retry_at),
        }),
        push_settled(initial, maximum, state, target, PushResult::Cancelled) == Ok::<
            (RemoteReplicationOutcome, Option<ReplicationView>),
            ReplicationFailure,
        >((RemoteReplicationOutcome::Cancelled, None)),
{
    later_times_are_later(
        completed_at,
        backoff(initial, maximum, (state.consecutive_failures + 1) as u32) as int,
    );
}

/// A destination is used exactly where it is no mirror, has one push destination on one line
/// without controls, and names objects by SHA-1 or SHA-256. Its fingerprint is that of what was
/// printed, and the push goes to the line itself.
pub proof fn destinations_are_single(facts: RemoteFacts)
    ensures
        ({
            let result = destination_of(facts);
            let plain = facts.mirror@ == seq![102u8, 97, 108, 115, 101, 10];
            let urls = facts.urls->0@;
            let one = facts.urls is Some && urls.len() > 1 && urls[urls.len() - 1] == 10 && forall|i: int|
                0 <= i < urls.len() - 1 ==> 32 <= #[trigger] urls[i] && urls[i] != 127;
            let short = facts.object_format@ == seq![115u8, 104, 97, 49, 10];
            let long = facts.object_format@ == seq![115u8, 104, 97, 50, 53, 54, 10];
            &&& result is Ok <==> plain && one && (short || long)
            &&& result matches Ok(remote) ==> remote.fingerprint == revision_of(urls)
                && remote.url.push(10) == urls && remote.sha256 == long
            &&& plain && (facts.urls is None || urls.len() == 0) ==> result->Err_0
                is RemoteUnavailable
            &&& !plain ==> result->Err_0 is InvalidPolicy
        }),
{
    if let Some(list) = facts.urls {
        let urls = list@;
        if urls.len() > 1 {
            let url = urls.drop_last();
            assert forall|i: int| 0 <= i < url.len() implies #[trigger] url[i] == urls[i] by {}
            assert(url.push(urls.last()) =~= urls);
            if urls.last() == 10 && (forall|i: int|
                0 <= i < urls.len() - 1 ==> 32 <= #[trigger] urls[i] && urls[i] != 127) {
                assert forall|i: int| 0 <= i < url.len() implies !crate::replication::is_control_byte(
                    #[trigger] url[i],
                ) by {
                    assert(urls[i] == url[i]);
                }
            }
            if destination_of(facts) is Ok {
                assert forall|i: int| 0 <= i < urls.len() - 1 implies 32 <= #[trigger] urls[i]
                    && urls[i] != 127 by {
                    assert(!crate::replication::is_control_byte(url[i]));
                }
            }
        }
    }
}

/// The names of remotes and branches cannot be taken for options or for anything but a name: they
/// are not empty, begin with no hyphen and hold no blank and no control. Names of letters and
/// digits are accepted.
pub proof fn names_are_plain(name: Seq<char>)
    ensures
        is_remote_name(name) || is_destination(name) ==> name.len() > 0 && name[0] != '-' && forall|
            i: int,
        |
            0 <= i < name.len() ==> (#[trigger] name[i]) > ' ' && name[i] != '\u{7f}' && name[i] != ':'
                && name[i] != '\\' && name[i] != '~' && name[i] != '^',
        name.len() > 0 && (forall|i: int|
            0 <= i < name.len() ==> 'a' <= #[trigger] name[i] <= 'z' || 'A' <= name[i] <= 'Z' || '0'
                <= name[i] <= '9') ==> is_remote_name(name) && is_destination(name),
{
    reveal_strlit(".lock");
    reveal_strlit("..");
    reveal_strlit("//");
    reveal_strlit("@{");
    if name.len() > 0 && (forall|i: int|
        0 <= i < name.len() ==> 'a' <= #[trigger] name[i] <= 'z' || 'A' <= name[i] <= 'Z' || '0'
            <= name[i] <= '9') {
        if crate::fields::ends_with(name, ".lock"@) {
            let tail = name.subrange(name.len() - 5, name.len() as int);
            assert(tail[0] == name[name.len() - 5]);
            assert(tail =~= ".lock"@);
            assert(tail[0] == '.');
        }
        assert forall|part: Seq<char>, at: int|
            part.len() == 2 && (part[0] == '.' || part[0] == '/' || part[0] == '@')
                && #[trigger] crate::search_text::stands_at(name, part, at) implies false by {
            assert(name.subrange(at, at + 2)[0] == name[at]);
        }
    }
}

/// A step whose lock could not be released has failed, unless it had failed otherwise already. A
/// cancelled one counts as cancelled, and any other outcome stays.
pub proof fn released_steps_keep_their_outcome(
    outcome: RemoteReplicationOutcome,
    failure: ReplicationFailure,
    unlock: ReplicationFailure,
)
    ensures
        replication_finished(Ok(outcome), Ok(())) == Ok::<
            RemoteReplicationOutcome,
            ReplicationFailure,
        >(outcome),
        replication_finished(Ok(outcome), Err(unlock)) == Err::<
            RemoteReplicationOutcome,
            ReplicationFailure,
        >(unlock),
        ({
            let cancelled = failure matches RemoteReplicationError::Repository(error)
                && error is GitCancelled;
            &&& cancelled ==> replication_finished(Err(failure), Ok(())) == Ok::<
                RemoteReplicationOutcome,
                ReplicationFailure,
            >(RemoteReplicationOutcome::Cancelled)
            &&& cancelled ==> replication_finished(Err(failure), Err(unlock)) == Err::<
                RemoteReplicationOutcome,
                ReplicationFailure,
            >(unlock)
            &&& !cancelled ==> replication_finished(Err(failure), Ok(())) == Err::<
                RemoteReplicationOutcome,
                ReplicationFailure,
            >(failure)
            &&& !cancelled ==> replication_finished(Err(failure), Err(unlock)) == Err::<
                RemoteReplicationOutcome,
                ReplicationFailure,
            >(failure)
        }),
{
}

/// Replication waits until its retry is due, and looks again after half a minute at the latest.
pub proof fn replication_waits_for_its_retry(
    outcome: Result<RemoteReplicationOutcome, RemoteReplicationError>,
    now: Timestamp,
)
    ensures
        0 <= wait_after(outcome, now) <= 30_000_000_000,
        outcome matches Ok(RemoteReplicationOutcome::Failed { retry_at, .. }) ==> {
            let remaining = retry_at.instant() - now.instant();
            &&& remaining <= 0 ==> wait_after(outcome, now) == 0
            &&& 0 <= remaining <= 30_000_000_000 ==> wait_after(outcome, now) == remaining
            &&& remaining >= 30_000_000_000 ==> wait_after(outcome, now) == 30_000_000_000
        },
        outcome matches Ok(RemoteReplicationOutcome::Deferred { retry_at, .. }) ==> {
            let remaining = retry_at.instant() - now.instant();
            &&& remaining <= 0 ==> wait_after(outcome, now) == 0
            &&& 0 <= remaining <= 30_000_000_000 ==> wait_after(outcome, now) == remaining
            &&& remaining >= 30_000_000_000 ==> wait_after(outcome, now) == 30_000_000_000
        },
        outcome matches Ok(RemoteReplicationOutcome::UpToDate { .. }) ==> wait_after(outcome, now)
            == 30_000_000_000,
        outcome matches Ok(RemoteReplicationOutcome::Pushed { .. }) ==> wait_after(outcome, now)
            == 30_000_000_000,
        outcome is Err ==> wait_after(outcome, now) == 30_000_000_000,
{
}

/// Pushes and failed pushes are reported, each of them. Of errors in a row only the first is, and
/// any outcome ends the row. A cancelled replication ends.
pub proof fn replication_reports_what_is_new(
    outcome: Result<RemoteReplicationOutcome, RemoteReplicationError>,
    error_reported: bool,
)
    ensures
        ({
            let (report, noted) = reported(outcome, error_reported);
            &&& report == ReplicationReport::Stop <==> outcome == Ok::<
                RemoteReplicationOutcome,
                RemoteReplicationError,
            >(RemoteReplicationOutcome::Cancelled)
            &&& outcome matches Ok(RemoteReplicationOutcome::Pushed { .. }) ==> report
                == ReplicationReport::Send
            &&& outcome matches Ok(RemoteReplicationOutcome::Failed { .. }) ==> report
                == ReplicationReport::Send
            &&& outcome matches Ok(RemoteReplicationOutcome::UpToDate { .. }) ==> report
                == ReplicationReport::Quiet
            &&& outcome matches Ok(RemoteReplicationOutcome::Deferred { .. }) ==> report
                == ReplicationReport::Quiet
            &&& outcome is Err ==> noted && (report == ReplicationReport::Send <==> !error_reported)
            &&& outcome is Ok && report != ReplicationReport::Stop ==> !noted
        }),
{
}

} // verus!
