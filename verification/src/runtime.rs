//! Cycles of a recovered Worker: observe pending work, close a batch, claim it and process it.
use crate::clock::Timestamp;
use crate::config::WorkerRunLimits;
use crate::ids::BatchId;
use crate::journal::{BatchCommitOutcome, ClaimToken, OutcomeView};
use crate::processor::BatchProcessorError;
use crate::replication::{RemoteReplicationError, RemoteReplicationOutcome};
use crate::run_error::{RunFailure, WorkerRunError};
use crate::schedule::{
    decided, BatchCloseReason, BatchReadiness, BatchSchedule, PendingSnapshot,
};
use vstd::prelude::*;
use vstd::string::*;

verus! {

/// How long a replication that has nothing to wait for waits, in nanoseconds.
pub const REPLICATION_VERIFICATION_INTERVAL: u128 = 30_000_000_000;

/// How long a replication whose event was not taken waits, in nanoseconds.
pub const REPLICATION_EVENT_RETRY_INTERVAL: u128 = 100_000_000;

/// Events that are kept for a slow reader.
pub const REPLICATION_EVENT_CAPACITY: usize = 64;

/// Result of selecting and processing at most one new batch.
#[derive(Debug)]
pub enum WorkerRunOutcome<O = BatchCommitOutcome> {
    /// The fixed pending snapshot contained no requests.
    Idle,
    /// The fixed snapshot contained only requests rejected during claiming.
    ClosedWithoutProcessing {
        /// Requests rejected while the snapshot was claimed.
        failed_requests: usize,
    },
    /// One newly claimed batch reached its terminal outcome.
    Processed {
        /// Newly generated batch identifier.
        batch_id: BatchId,
        /// Exact committed or no-change result.
        outcome: O,
        /// Requests rejected before repository processing began.
        claim_failures: usize,
    },
}

/// Progress made by one nonblocking scheduler poll.
#[allow(inconsistent_fields)]
#[derive(Debug)]
pub enum WorkerPollOutcome<O = BatchCommitOutcome> {
    /// Shutdown was requested before a repository transaction began.
    ///
    /// This is terminal for the runtime; the caller must discard it and use startup recovery
    /// before processing more work.
    Stopped {
        /// Requests rejected before shutdown was observed.
        failed_requests: usize,
    },
    /// One bounded portion of the pending directory was observed.
    Scanning {
        /// Directory entries inspected by this poll.
        scanned_entries: usize,
        /// Requests observed in the fixed snapshot so far.
        observed_requests: usize,
    },
    /// The complete fixed snapshot contained no requests.
    Idle,
    /// The snapshot remains open until a time threshold is reached.
    Waiting {
        /// Earliest time at which an unchanged snapshot becomes ready.
        ready_at: Timestamp,
    },
    /// A ready snapshot contained only entries failed during claim validation.
    ClosedWithoutCommit {
        /// Threshold responsible for closing the snapshot.
        reason: BatchCloseReason,
        /// Requests rejected while the snapshot was claimed.
        failed_requests: usize,
    },
    /// A ready snapshot was claimed and processed.
    Processed {
        /// Threshold responsible for closing the batch.
        reason: BatchCloseReason,
        /// Newly generated batch identifier.
        batch_id: BatchId,
        /// Exact committed or no-change result.
        outcome: O,
        /// Requests rejected before repository processing began.
        claim_failures: usize,
    },
}

/// How a cycle ended.
#[derive(Debug)]
pub enum CycleOutcome<O = BatchCommitOutcome> {
    /// A batch was asked for.
    Run(WorkerRunOutcome<O>),
    /// A poll was asked for.
    Poll(WorkerPollOutcome<O>),
}

/// The end of a cycle with its lists as sequences.
pub type CycleView = CycleOutcome<OutcomeView>;

impl View for CycleOutcome {
    type V = CycleView;

    open spec fn view(&self) -> CycleView {
        match *self {
            CycleOutcome::Run(outcome) => CycleOutcome::Run(
                match outcome {
                    WorkerRunOutcome::Idle => WorkerRunOutcome::Idle,
                    WorkerRunOutcome::ClosedWithoutProcessing { failed_requests } =>
                        WorkerRunOutcome::ClosedWithoutProcessing { failed_requests },
                    WorkerRunOutcome::Processed { batch_id, outcome, claim_failures } =>
                        WorkerRunOutcome::Processed {
                            batch_id,
                            outcome: outcome@,
                            claim_failures,
                        },
                },
            ),
            CycleOutcome::Poll(outcome) => CycleOutcome::Poll(
                match outcome {
                    WorkerPollOutcome::Stopped { failed_requests } => WorkerPollOutcome::Stopped {
                        failed_requests,
                    },
                    WorkerPollOutcome::Scanning { scanned_entries, observed_requests } =>
                        WorkerPollOutcome::Scanning { scanned_entries, observed_requests },
                    WorkerPollOutcome::Idle => WorkerPollOutcome::Idle,
                    WorkerPollOutcome::Waiting { ready_at } => WorkerPollOutcome::Waiting {
                        ready_at,
                    },
                    WorkerPollOutcome::ClosedWithoutCommit { reason, failed_requests } =>
                        WorkerPollOutcome::ClosedWithoutCommit { reason, failed_requests },
                    WorkerPollOutcome::Processed { reason, batch_id, outcome, claim_failures } =>
                        WorkerPollOutcome::Processed {
                            reason,
                            batch_id,
                            outcome: outcome@,
                            claim_failures,
                        },
                },
            ),
        }
    }
}

/// What a poll was asked with.
#[derive(Clone, Copy, Debug, PartialEq, Eq, Structural)]
pub struct PollSettings {
    /// Batch-closing thresholds.
    pub schedule: BatchSchedule,
    /// The time of the poll.
    pub now: Timestamp,
    /// The batch that a ready snapshot is claimed for.
    pub batch_id: BatchId,
}

/// A batch that is being claimed.
#[derive(Clone, Copy, Debug, PartialEq, Eq, Structural)]
pub struct OpenClaim {
    /// The batch.
    pub batch_id: BatchId,
    /// The last acceptance number that is claimed, if the batch has such a bound.
    pub maximum_sequence: Option<u64>,
    /// Why a polled snapshot closed; nothing if no poll asked for the batch.
    pub reason: Option<BatchCloseReason>,
}

/// Where a cycle stands.
#[derive(Clone, Copy, Debug, PartialEq, Eq, Structural)]
pub enum Cycle {
    /// No cycle is under way.
    Rest,
    /// Shutdown is being looked for before pending work is observed.
    Polling(PollSettings),
    /// Pending work is being observed.
    Observing(PollSettings),
    /// Shutdown is being looked for after a part of it was observed.
    ObservedPart {
        /// Directory entries inspected.
        scanned_entries: usize,
        /// Requests observed so far.
        observed_requests: usize,
    },
    /// Shutdown is being looked for after all of it was observed.
    Observed(PollSettings, PendingSnapshot),
    /// An earlier observation is being discarded.
    Discarding(OpenClaim),
    /// Requests are being claimed.
    Claiming(OpenClaim),
    /// Shutdown is being looked for between two scans.
    Pausing {
        /// The batch.
        claim: OpenClaim,
        /// Requests rejected so far.
        failed_requests: usize,
    },
    /// Shutdown is being looked for after all requests were claimed.
    Claimed {
        /// The batch.
        claim: OpenClaim,
        /// Requests rejected.
        failed_requests: usize,
    },
    /// The batch is being processed.
    Processing {
        /// The batch.
        claim: OpenClaim,
        /// Requests rejected.
        failed_requests: usize,
    },
    /// The replication thread is being told of a new commit.
    Waking {
        /// The batch.
        claim: OpenClaim,
        /// Requests rejected.
        failed_requests: usize,
    },
}

/// What is done next.
#[derive(Debug)]
pub enum CycleAction<C = Vec<ClaimToken>, R = Result<CycleOutcome, WorkerRunError>> {
    /// Look whether shutdown is requested.
    PollStop,
    /// Observe pending work.
    ScanPending {
        /// The number of entries.
        entries: usize,
    },
    /// Discard an earlier observation.
    DiscardObservation,
    /// Claim requests.
    Claim {
        /// The batch.
        claim: OpenClaim,
        /// The number of entries.
        entries: usize,
        /// The number of requests.
        requests: usize,
    },
    /// Process the batch.
    Process {
        /// The batch.
        batch_id: BatchId,
        /// Its claims.
        claims: C,
        /// Requests rejected before.
        claim_failures: usize,
    },
    /// Tell the replication thread of a new commit.
    WakeReplication,
    /// Nothing: the cycle has ended.
    Finish(R),
}

/// An action with its lists and texts as sequences.
pub type CycleActionView = CycleAction<Seq<ClaimToken>, Result<CycleView, RunFailure>>;

impl View for CycleAction {
    type V = CycleActionView;

    open spec fn view(&self) -> CycleActionView {
        match *self {
            CycleAction::PollStop => CycleAction::PollStop,
            CycleAction::ScanPending { entries } => CycleAction::ScanPending { entries },
            CycleAction::DiscardObservation => CycleAction::DiscardObservation,
            CycleAction::Claim { claim, entries, requests } => CycleAction::Claim {
                claim,
                entries,
                requests,
            },
            CycleAction::Process { batch_id, claims, claim_failures } => CycleAction::Process {
                batch_id,
                claims: claims@,
                claim_failures,
            },
            CycleAction::WakeReplication => CycleAction::WakeReplication,
            CycleAction::Finish(Ok(outcome)) => CycleAction::Finish(Ok(outcome@)),
            CycleAction::Finish(Err(error)) => CycleAction::Finish(Err(error@)),
        }
    }
}

/// What came of an action.
#[derive(Debug)]
pub enum CycleReply {
    /// It was done.
    Done,
    /// The queue failed.
    QueueFailed {
        /// Concrete queue failure.
        source: String,
        /// Requests durably rejected before the failure.
        failed_requests: usize,
    },
    /// The processor failed.
    ProcessorFailed(BatchProcessorError),
    /// Whether shutdown is requested.
    Stop(bool),
    /// A part of the pending work was observed.
    Scanning {
        /// Directory entries inspected.
        scanned_entries: usize,
        /// Requests observed so far.
        observed_requests: usize,
    },
    /// All pending work was observed.
    Snapshot(PendingSnapshot),
    /// Claiming goes on.
    StillClaiming {
        /// Requests rejected so far.
        failed_requests: usize,
    },
    /// All requests were claimed.
    Claims {
        /// The claims.
        claims: Vec<ClaimToken>,
        /// Requests rejected.
        failed_requests: usize,
    },
    /// The batch reached its outcome.
    Outcome(BatchCommitOutcome),
}

/// Exclusive, recovered Worker state ready to process new batches.
#[derive(Debug)]
pub struct WorkerRuntime<C = Vec<ClaimToken>, O = Option<BatchCommitOutcome>> {
    /// Bounds of scans and batches.
    pub limits: WorkerRunLimits,
    /// Whether there is a replication thread.
    pub replication: bool,
    /// Whether a new cycle may begin: a failed or stopped one needs startup recovery.
    pub ready: bool,
    /// Where the cycle stands.
    pub cycle: Cycle,
    /// The claims of the batch.
    pub claims: C,
    /// What the batch ended with.
    pub outcome: O,
}

/// A runtime with its lists as sequences.
pub type RuntimeView = WorkerRuntime<Seq<ClaimToken>, Option<OutcomeView>>;

impl View for WorkerRuntime {
    type V = RuntimeView;

    open spec fn view(&self) -> RuntimeView {
        WorkerRuntime {
            limits: self.limits,
            replication: self.replication,
            ready: self.ready,
            cycle: self.cycle,
            claims: self.claims@,
            outcome: match self.outcome {
                Some(outcome) => Some(outcome@),
                None => None,
            },
        }
    }
}

/// A runtime and what it does next.
pub type CycleStep = (RuntimeView, CycleActionView);

/// A cycle that goes on.
pub open spec fn advance(runtime: RuntimeView, cycle: Cycle, action: CycleActionView) -> CycleStep {
    (WorkerRuntime { cycle, ..runtime }, action)
}

/// A cycle that ends; the runtime may or may not begin another.
pub open spec fn rest(
    runtime: RuntimeView,
    ready: bool,
    result: Result<CycleView, RunFailure>,
) -> CycleStep {
    advance(WorkerRuntime { ready, ..runtime }, Cycle::Rest, CycleAction::Finish(result))
}

/// A poll that was asked to stop: the runtime cannot be used any more.
pub open spec fn halted(runtime: RuntimeView, failed_requests: usize) -> CycleStep {
    rest(runtime, false, Ok(CycleOutcome::Poll(WorkerPollOutcome::Stopped { failed_requests })))
}

/// A poll that ended without closing a batch.
pub open spec fn polled(runtime: RuntimeView, outcome: WorkerPollOutcome<OutcomeView>) -> CycleStep {
    rest(runtime, runtime.ready, Ok(CycleOutcome::Poll(outcome)))
}

/// A cycle that failed: the runtime needs startup recovery.
pub open spec fn broken(runtime: RuntimeView, failure: RunFailure) -> CycleStep {
    rest(runtime, false, Err(failure))
}

/// A cycle that claims requests.
pub open spec fn claiming(runtime: RuntimeView, claim: OpenClaim) -> CycleStep {
    advance(
        runtime,
        Cycle::Claiming(claim),
        CycleAction::Claim {
            claim,
            entries: runtime.limits.spec_scan_entries(),
            requests: runtime.limits.spec_requests(),
        },
    )
}

/// A cycle whose batch reached an outcome.
pub open spec fn completed(
    runtime: RuntimeView,
    claim: OpenClaim,
    outcome: OutcomeView,
    claim_failures: usize,
) -> CycleStep {
    rest(
        runtime,
        true,
        Ok(
            match claim.reason {
                Some(reason) => CycleOutcome::Poll(
                    WorkerPollOutcome::Processed {
                        reason,
                        batch_id: claim.batch_id,
                        outcome,
                        claim_failures,
                    },
                ),
                None => CycleOutcome::Run(
                    WorkerRunOutcome::Processed {
                        batch_id: claim.batch_id,
                        outcome,
                        claim_failures,
                    },
                ),
            },
        ),
    )
}

/// A cycle that has its claims.
pub open spec fn claimed(runtime: RuntimeView, claim: OpenClaim, failed_requests: usize) -> CycleStep {
    if runtime.claims.len() == 0 {
        rest(
            runtime,
            true,
            Ok(
                match claim.reason {
                    Some(reason) => CycleOutcome::Poll(
                        WorkerPollOutcome::ClosedWithoutCommit { reason, failed_requests },
                    ),
                    None => CycleOutcome::Run(
                        if failed_requests == 0 {
                            WorkerRunOutcome::Idle
                        } else {
                            WorkerRunOutcome::ClosedWithoutProcessing { failed_requests }
                        },
                    ),
                },
            ),
        )
    } else {
        advance(
            runtime,
            Cycle::Processing { claim, failed_requests },
            CycleAction::Process {
                batch_id: claim.batch_id,
                claims: runtime.claims,
                claim_failures: failed_requests,
            },
        )
    }
}

/// A cycle that knows its snapshot.
pub open spec fn observed(
    runtime: RuntimeView,
    settings: PollSettings,
    snapshot: PendingSnapshot,
) -> CycleStep {
    match decided(
        snapshot,
        runtime.limits.spec_requests(),
        settings.schedule.spec_debounce(),
        settings.schedule.spec_maximum_age(),
        settings.now,
    ) {
        BatchReadiness::Empty => polled(runtime, WorkerPollOutcome::Idle),
        BatchReadiness::Waiting { ready_at } => polled(
            runtime,
            WorkerPollOutcome::Waiting { ready_at },
        ),
        BatchReadiness::Ready { reason } => claiming(
            WorkerRuntime { ready: false, ..runtime },
            OpenClaim {
                batch_id: settings.batch_id,
                maximum_sequence: Some(snapshot.maximum_sequence),
                reason: Some(reason),
            },
        ),
    }
}

/// How an observation goes on.
pub open spec fn observing(runtime: RuntimeView, reply: CycleReply) -> CycleStep {
    match (runtime.cycle, reply) {
        (Cycle::Polling(_), CycleReply::Stop(true)) => halted(runtime, 0),
        (Cycle::Polling(settings), CycleReply::Stop(false)) => advance(
            runtime,
            Cycle::Observing(settings),
            CycleAction::ScanPending { entries: runtime.limits.spec_scan_entries() },
        ),
        (Cycle::Observing(_), CycleReply::QueueFailed { source, failed_requests }) => rest(
            runtime,
            runtime.ready,
            Err(WorkerRunError::Queue { source: source@, failed_requests }),
        ),
        (Cycle::Observing(_), CycleReply::Scanning { scanned_entries, observed_requests }) =>
            advance(
                runtime,
                Cycle::ObservedPart { scanned_entries, observed_requests },
                CycleAction::PollStop,
            ),
        (Cycle::Observing(settings), CycleReply::Snapshot(snapshot)) => advance(
            runtime,
            Cycle::Observed(settings, snapshot),
            CycleAction::PollStop,
        ),
        (Cycle::ObservedPart { .. }, CycleReply::Stop(true)) => halted(runtime, 0),
        (
            Cycle::ObservedPart { scanned_entries, observed_requests },
            CycleReply::Stop(false),
        ) => polled(runtime, WorkerPollOutcome::Scanning { scanned_entries, observed_requests }),
        (Cycle::Observed(_, _), CycleReply::Stop(true)) => halted(runtime, 0),
        (Cycle::Observed(settings, snapshot), CycleReply::Stop(false)) => observed(
            runtime,
            settings,
            snapshot,
        ),
        _ => broken(runtime, WorkerRunError::RecoveryRequired),
    }
}

/// How the claiming and processing of a batch goes on.
pub open spec fn running(runtime: RuntimeView, reply: CycleReply) -> CycleStep {
    match (runtime.cycle, reply) {
        (Cycle::Discarding(claim), CycleReply::Done) => claiming(
            WorkerRuntime { ready: false, ..runtime },
            claim,
        ),
        (Cycle::Claiming(_), CycleReply::QueueFailed { source, failed_requests }) => broken(
            runtime,
            WorkerRunError::Queue { source: source@, failed_requests },
        ),
        (Cycle::Claiming(claim), CycleReply::StillClaiming { failed_requests }) =>
            if claim.reason is Some {
                advance(runtime, Cycle::Pausing { claim, failed_requests }, CycleAction::PollStop)
            } else {
                claiming(runtime, claim)
            },
        (Cycle::Claiming(claim), CycleReply::Claims { claims, failed_requests }) => {
            let runtime = WorkerRuntime { claims: claims@, ..runtime };
            if claim.reason is Some {
                advance(runtime, Cycle::Claimed { claim, failed_requests }, CycleAction::PollStop)
            } else {
                claimed(runtime, claim, failed_requests)
            }
        },
        (Cycle::Pausing { failed_requests, .. }, CycleReply::Stop(true)) => halted(
            runtime,
            failed_requests,
        ),
        (Cycle::Pausing { claim, .. }, CycleReply::Stop(false)) => claiming(runtime, claim),
        (Cycle::Claimed { failed_requests, .. }, CycleReply::Stop(true)) => halted(
            runtime,
            failed_requests,
        ),
        (Cycle::Claimed { claim, failed_requests }, CycleReply::Stop(false)) => claimed(
            runtime,
            claim,
            failed_requests,
        ),
        (Cycle::Processing { failed_requests, .. }, CycleReply::ProcessorFailed(error)) => broken(
            runtime,
            WorkerRunError::Processor { source: error@, failed_requests },
        ),
        (Cycle::Processing { claim, failed_requests }, CycleReply::Outcome(outcome)) =>
            if runtime.replication {
                advance(
                    WorkerRuntime { outcome: Some(outcome@), ..runtime },
                    Cycle::Waking { claim, failed_requests },
                    CycleAction::WakeReplication,
                )
            } else {
                completed(runtime, claim, outcome@, failed_requests)
            },
        (Cycle::Waking { claim, failed_requests }, CycleReply::Done) => match runtime.outcome {
            Some(outcome) => completed(
                WorkerRuntime { outcome: None, ..runtime },
                claim,
                outcome,
                failed_requests,
            ),
            None => broken(runtime, WorkerRunError::RecoveryRequired),
        },
        _ => broken(runtime, WorkerRunError::RecoveryRequired),
    }
}

/// Whether pending work is still being observed.
pub open spec fn is_observing(cycle: Cycle) -> bool {
    cycle is Polling || cycle is Observing || cycle is ObservedPart || cycle is Observed
}

/// How a cycle goes on after a reply. A reply that does not fit breaks it.
pub open spec fn cycled(runtime: RuntimeView, reply: CycleReply) -> CycleStep {
    if is_observing(runtime.cycle) {
        observing(runtime, reply)
    } else {
        running(runtime, reply)
    }
}

/// How a poll begins.
pub open spec fn poll_begun(runtime: RuntimeView, settings: PollSettings) -> CycleStep {
    if !runtime.ready {
        broken(runtime, WorkerRunError::RecoveryRequired)
    } else {
        advance(runtime, Cycle::Polling(settings), CycleAction::PollStop)
    }
}

/// How a run begins.
pub open spec fn run_begun(runtime: RuntimeView, batch_id: BatchId) -> CycleStep {
    if !runtime.ready {
        broken(runtime, WorkerRunError::RecoveryRequired)
    } else {
        advance(
            runtime,
            Cycle::Discarding(OpenClaim { batch_id, maximum_sequence: None, reason: None }),
            CycleAction::DiscardObservation,
        )
    }
}

impl WorkerRuntime {
    /// Creates the runtime of a started Worker.
    pub fn new(limits: WorkerRunLimits, replication: bool) -> (runtime: WorkerRuntime)
        ensures
            runtime@ == (RuntimeView {
                limits,
                replication,
                ready: true,
                cycle: Cycle::Rest,
                claims: Seq::empty(),
                outcome: None,
            }),
    {
        let claims: Vec<ClaimToken> = Vec::new();
        assert(claims@ =~= Seq::<ClaimToken>::empty());
        WorkerRuntime {
            limits,
            replication,
            ready: true,
            cycle: Cycle::Rest,
            claims,
            outcome: None,
        }
    }

    fn advance(self, cycle: Cycle, action: CycleAction) -> (result: (WorkerRuntime, CycleAction))
        ensures
            (result.0@, result.1@) == advance(self@, cycle, action@),
    {
        let mut runtime = self;
        runtime.cycle = cycle;
        (runtime, action)
    }

    fn rest(self, ready: bool, outcome: CycleOutcome) -> (result: (WorkerRuntime, CycleAction))
        ensures
            (result.0@, result.1@) == rest(self@, ready, Ok(outcome@)),
    {
        let mut runtime = self;
        runtime.ready = ready;
        runtime.advance(Cycle::Rest, CycleAction::Finish(Ok(outcome)))
    }

    fn halt(self, failed_requests: usize) -> (result: (WorkerRuntime, CycleAction))
        ensures
            (result.0@, result.1@) == halted(self@, failed_requests),
    {
        self.rest(false, CycleOutcome::Poll(WorkerPollOutcome::Stopped { failed_requests }))
    }

    fn break_down(self, error: WorkerRunError) -> (result: (WorkerRuntime, CycleAction))
        ensures
            (result.0@, result.1@) == broken(self@, error@),
    {
        let mut runtime = self;
        runtime.ready = false;
        runtime.advance(Cycle::Rest, CycleAction::Finish(Err(error)))
    }

    fn claim(self, claim: OpenClaim) -> (result: (WorkerRuntime, CycleAction))
        ensures
            (result.0@, result.1@) == claiming(self@, claim),
    {
        let entries: usize = self.limits.maximum_scan_entries();
        let requests: usize = self.limits.maximum_requests();
        self.advance(Cycle::Claiming(claim), CycleAction::Claim { claim, entries, requests })
    }

    fn complete(self, claim: OpenClaim, outcome: BatchCommitOutcome, claim_failures: usize) -> (result:
        (WorkerRuntime, CycleAction))
        ensures
            (result.0@, result.1@) == completed(self@, claim, outcome@, claim_failures),
    {
        let batch_id = claim.batch_id;
        let ended = match claim.reason {
            Some(reason) => CycleOutcome::Poll(
                WorkerPollOutcome::Processed { reason, batch_id, outcome, claim_failures },
            ),
            None => CycleOutcome::Run(
                WorkerRunOutcome::Processed { batch_id, outcome, claim_failures },
            ),
        };
        self.rest(true, ended)
    }

    fn copied_claims(&self) -> (copy: Vec<ClaimToken>)
        ensures
            copy@ == self.claims@,
    {
        let mut copy: Vec<ClaimToken> = Vec::new();
        let mut i: usize = 0;
        while i < self.claims.len()
            invariant
                i <= self.claims@.len(),
                copy@ == self.claims@.take(i as int),
            decreases self.claims@.len() - i,
        {
            copy.push(self.claims[i]);
            assert(self.claims@.take(i as int).push(self.claims@[i as int])
                =~= self.claims@.take(i + 1));
            i += 1;
        }
        assert(self.claims@.take(self.claims@.len() as int) =~= self.claims@);
        copy
    }

    fn process(self, claim: OpenClaim, failed_requests: usize) -> (result: (
        WorkerRuntime,
        CycleAction,
    ))
        ensures
            (result.0@, result.1@) == claimed(self@, claim, failed_requests),
    {
        if self.claims.len() == 0 {
            let ended = match claim.reason {
                Some(reason) => CycleOutcome::Poll(
                    WorkerPollOutcome::ClosedWithoutCommit { reason, failed_requests },
                ),
                None => CycleOutcome::Run(
                    if failed_requests == 0 {
                        WorkerRunOutcome::Idle
                    } else {
                        WorkerRunOutcome::ClosedWithoutProcessing { failed_requests }
                    },
                ),
            };
            return self.rest(true, ended);
        }
        let claims = self.copied_claims();
        self.advance(
            Cycle::Processing { claim, failed_requests },
            CycleAction::Process {
                batch_id: claim.batch_id,
                claims,
                claim_failures: failed_requests,
            },
        )
    }

    fn decide(self, settings: PollSettings, snapshot: PendingSnapshot) -> (result: (
        WorkerRuntime,
        CycleAction,
    ))
        ensures
            (result.0@, result.1@) == observed(self@, settings, snapshot),
    {
        let ready = self.ready;
        let maximum_requests: usize = self.limits.maximum_requests();
        match settings.schedule.readiness(snapshot, maximum_requests, settings.now) {
            BatchReadiness::Empty => self.rest(ready, CycleOutcome::Poll(WorkerPollOutcome::Idle)),
            BatchReadiness::Waiting { ready_at } => self.rest(
                ready,
                CycleOutcome::Poll(WorkerPollOutcome::Waiting { ready_at }),
            ),
            BatchReadiness::Ready { reason } => {
                let mut runtime = self;
                runtime.ready = false;
                runtime.claim(
                    OpenClaim {
                        batch_id: settings.batch_id,
                        maximum_sequence: Some(snapshot.maximum_sequence),
                        reason: Some(reason),
                    },
                )
            },
        }
    }

    fn observe(self, reply: CycleReply) -> (result: (WorkerRuntime, CycleAction))
        ensures
            (result.0@, result.1@) == observing(self@, reply),
    {
        let ready = self.ready;
        match (self.cycle, reply) {
            (Cycle::Polling(_), CycleReply::Stop(true)) => self.halt(0),
            (Cycle::Polling(settings), CycleReply::Stop(false)) => {
                let entries: usize = self.limits.maximum_scan_entries();
                self.advance(Cycle::Observing(settings), CycleAction::ScanPending { entries })
            },
            (Cycle::Observing(_), CycleReply::QueueFailed { source, failed_requests }) =>
                self.advance(
                    Cycle::Rest,
                    CycleAction::Finish(Err(WorkerRunError::Queue { source, failed_requests })),
                ),
            (Cycle::Observing(_), CycleReply::Scanning { scanned_entries, observed_requests }) =>
                self.advance(
                    Cycle::ObservedPart { scanned_entries, observed_requests },
                    CycleAction::PollStop,
                ),
            (Cycle::Observing(settings), CycleReply::Snapshot(snapshot)) => self.advance(
                Cycle::Observed(settings, snapshot),
                CycleAction::PollStop,
            ),
            (Cycle::ObservedPart { .. }, CycleReply::Stop(true)) => self.halt(0),
            (
                Cycle::ObservedPart { scanned_entries, observed_requests },
                CycleReply::Stop(false),
            ) => self.rest(
                ready,
                CycleOutcome::Poll(
                    WorkerPollOutcome::Scanning { scanned_entries, observed_requests },
                ),
            ),
            (Cycle::Observed(_, _), CycleReply::Stop(true)) => self.halt(0),
            (Cycle::Observed(settings, snapshot), CycleReply::Stop(false)) => self.decide(
                settings,
                snapshot,
            ),
            _ => self.break_down(WorkerRunError::RecoveryRequired),
        }
    }

    fn run(self, reply: CycleReply) -> (result: (WorkerRuntime, CycleAction))
        ensures
            (result.0@, result.1@) == running(self@, reply),
    {
        let mut runtime = self;
        match (runtime.cycle, reply) {
            (Cycle::Discarding(claim), CycleReply::Done) => {
                runtime.ready = false;
                runtime.claim(claim)
            },
            (Cycle::Claiming(_), CycleReply::QueueFailed { source, failed_requests }) =>
                runtime.break_down(WorkerRunError::Queue { source, failed_requests }),
            (Cycle::Claiming(claim), CycleReply::StillClaiming { failed_requests }) =>
                if claim.reason.is_some() {
                    runtime.advance(
                        Cycle::Pausing { claim, failed_requests },
                        CycleAction::PollStop,
                    )
                } else {
                    runtime.claim(claim)
                },
            (Cycle::Claiming(claim), CycleReply::Claims { claims, failed_requests }) => {
                runtime.claims = claims;
                if claim.reason.is_some() {
                    runtime.advance(
                        Cycle::Claimed { claim, failed_requests },
                        CycleAction::PollStop,
                    )
                } else {
                    runtime.process(claim, failed_requests)
                }
            },
            (Cycle::Pausing { failed_requests, .. }, CycleReply::Stop(true)) => runtime.halt(
                failed_requests,
            ),
            (Cycle::Pausing { claim, .. }, CycleReply::Stop(false)) => runtime.claim(claim),
            (Cycle::Claimed { failed_requests, .. }, CycleReply::Stop(true)) => runtime.halt(
                failed_requests,
            ),
            (Cycle::Claimed { claim, failed_requests }, CycleReply::Stop(false)) =>
                runtime.process(claim, failed_requests),
            (Cycle::Processing { failed_requests, .. }, CycleReply::ProcessorFailed(error)) =>
                runtime.break_down(WorkerRunError::Processor { source: error, failed_requests }),
            (Cycle::Processing { claim, failed_requests }, CycleReply::Outcome(outcome)) =>
                if runtime.replication {
                    runtime.outcome = Some(outcome);
                    runtime.advance(
                        Cycle::Waking { claim, failed_requests },
                        CycleAction::WakeReplication,
                    )
                } else {
                    runtime.complete(claim, outcome, failed_requests)
                },
            (Cycle::Waking { claim, failed_requests }, CycleReply::Done) =>
                match runtime.outcome.take() {
                    Some(outcome) => runtime.complete(claim, outcome, failed_requests),
                    None => runtime.break_down(WorkerRunError::RecoveryRequired),
                },
            _ => runtime.break_down(WorkerRunError::RecoveryRequired),
        }
    }

    /// Begins a poll: pending work is observed once, and processed only when a threshold closes.
    pub fn poll_once(self, settings: PollSettings) -> (result: (WorkerRuntime, CycleAction))
        ensures
            (result.0@, result.1@) == poll_begun(self@, settings),
    {
        if !self.ready {
            self.break_down(WorkerRunError::RecoveryRequired)
        } else {
            self.advance(Cycle::Polling(settings), CycleAction::PollStop)
        }
    }

    /// Begins a run: the earliest bounded pending snapshot is claimed and processed.
    pub fn run_once(self, batch_id: BatchId) -> (result: (WorkerRuntime, CycleAction))
        ensures
            (result.0@, result.1@) == run_begun(self@, batch_id),
    {
        if !self.ready {
            self.break_down(WorkerRunError::RecoveryRequired)
        } else {
            self.advance(
                Cycle::Discarding(OpenClaim { batch_id, maximum_sequence: None, reason: None }),
                CycleAction::DiscardObservation,
            )
        }
    }

    /// Decides what comes after a reply.
    pub fn step(self, reply: CycleReply) -> (result: (WorkerRuntime, CycleAction))
        ensures
            (result.0@, result.1@) == cycled(self@, reply),
    {
        match self.cycle {
            Cycle::Polling(_) | Cycle::Observing(_) | Cycle::ObservedPart { .. }
            | Cycle::Observed(_, _) => self.observe(reply),
            _ => self.run(reply),
        }
    }
}

/// A cycle that failed while a batch was being claimed or processed, or that was stopped, leaves a
/// runtime that begins no other; one that ended with an outcome leaves a ready runtime.
pub proof fn broken_runtimes_need_recovery(
    runtime: RuntimeView,
    reply: CycleReply,
    settings: PollSettings,
    batch_id: BatchId,
)
    requires
        !is_observing(runtime.cycle),
    ensures
        ({
            let (after, action) = cycled(runtime, reply);
            &&& action matches CycleAction::Finish(Err(_)) ==> !after.ready && poll_begun(
                after,
                settings,
            ).1 == CycleActionView::Finish(Err(WorkerRunError::RecoveryRequired)) && run_begun(
                after,
                batch_id,
            ).1 == CycleActionView::Finish(Err(WorkerRunError::RecoveryRequired))
            &&& action matches CycleAction::Finish(
                Ok(CycleOutcome::Poll(WorkerPollOutcome::Stopped { .. })),
            ) ==> !after.ready
            &&& action matches CycleAction::Finish(Ok(outcome)) ==> after.ready || outcome matches
                CycleOutcome::Poll(WorkerPollOutcome::Stopped { .. })
        }),
{
}

/// A batch is claimed by a poll only when its snapshot was found ready, and then only through the
/// last request of that snapshot.
pub proof fn polls_claim_what_they_observed(runtime: RuntimeView, reply: CycleReply)
    requires
        is_observing(runtime.cycle),
    ensures
        cycled(runtime, reply).1 matches CycleAction::Claim { claim, .. } ==> (runtime.cycle matches
            Cycle::Observed(settings, snapshot) && decided(
            snapshot,
            runtime.limits.spec_requests(),
            settings.schedule.spec_debounce(),
            settings.schedule.spec_maximum_age(),
            settings.now,
        ) == (BatchReadiness::Ready { reason: claim.reason->0 }) && claim.maximum_sequence == Some(
            snapshot.maximum_sequence,
        ) && claim.batch_id == settings.batch_id),
{
}

/// How long a replication waits before its next attempt, in nanoseconds: until a scheduled retry,
/// but no longer than a verification interval.
pub open spec fn wait_after(
    outcome: Result<RemoteReplicationOutcome, RemoteReplicationError>,
    now: Timestamp,
) -> int {
    let retry_at = match outcome {
        Ok(RemoteReplicationOutcome::Failed { retry_at, .. }) => Some(retry_at),
        Ok(RemoteReplicationOutcome::Deferred { retry_at, .. }) => Some(retry_at),
        _ => None,
    };
    match retry_at {
        None => REPLICATION_VERIFICATION_INTERVAL as int,
        Some(retry_at) => {
            let remaining = retry_at.instant() - now.instant();
            if remaining <= 0 {
                0
            } else if remaining < REPLICATION_VERIFICATION_INTERVAL {
                remaining
            } else {
                REPLICATION_VERIFICATION_INTERVAL as int
            }
        },
    }
}

/// Decides how long a replication waits before its next attempt, in nanoseconds.
pub fn replication_wait(
    outcome: &Result<RemoteReplicationOutcome, RemoteReplicationError>,
    now: &Timestamp,
) -> (wait: u128)
    ensures
        wait == wait_after(*outcome, *now),
        wait <= REPLICATION_VERIFICATION_INTERVAL,
{
    let retry_at = match outcome {
        Ok(RemoteReplicationOutcome::Failed { retry_at, .. }) => Some(*retry_at),
        Ok(RemoteReplicationOutcome::Deferred { retry_at, .. }) => Some(*retry_at),
        _ => None,
    };
    match retry_at {
        None => REPLICATION_VERIFICATION_INTERVAL,
        Some(retry_at) => {
            let remaining: i128 = retry_at.nanoseconds() - now.nanoseconds();
            if remaining <= 0 {
                0
            } else if (remaining as u128) < REPLICATION_VERIFICATION_INTERVAL {
                remaining as u128
            } else {
                REPLICATION_VERIFICATION_INTERVAL
            }
        },
    }
}

/// What a replication thread does with an outcome.
#[derive(Clone, Copy, Debug, PartialEq, Eq, Structural)]
pub enum ReplicationReport {
    /// It ends.
    Stop,
    /// It reports the outcome.
    Send,
    /// It reports nothing.
    Quiet,
}

/// What a replication thread does with an outcome, and whether an error counts as reported then:
/// of errors in a row only the first is reported.
pub open spec fn reported(
    outcome: Result<RemoteReplicationOutcome, RemoteReplicationError>,
    error_reported: bool,
) -> (ReplicationReport, bool) {
    match outcome {
        Ok(RemoteReplicationOutcome::Cancelled) => (ReplicationReport::Stop, error_reported),
        Ok(RemoteReplicationOutcome::Pushed { .. }) => (ReplicationReport::Send, false),
        Ok(RemoteReplicationOutcome::Failed { .. }) => (ReplicationReport::Send, false),
        Ok(_) => (ReplicationReport::Quiet, false),
        Err(_) => if error_reported {
            (ReplicationReport::Quiet, true)
        } else {
            (ReplicationReport::Send, true)
        },
    }
}

/// Decides what a replication thread does with an outcome.
pub fn replication_report(
    outcome: &Result<RemoteReplicationOutcome, RemoteReplicationError>,
    error_reported: bool,
) -> (result: (ReplicationReport, bool))
    ensures
        result == reported(*outcome, error_reported),
{
    match outcome {
        Ok(RemoteReplicationOutcome::Cancelled) => (ReplicationReport::Stop, error_reported),
        Ok(RemoteReplicationOutcome::Pushed { .. }) => (ReplicationReport::Send, false),
        Ok(RemoteReplicationOutcome::Failed { .. }) => (ReplicationReport::Send, false),
        Ok(_) => (ReplicationReport::Quiet, false),
        Err(_) => if error_reported {
            (ReplicationReport::Quiet, true)
        } else {
            (ReplicationReport::Send, true)
        },
    }
}

} // verus!
