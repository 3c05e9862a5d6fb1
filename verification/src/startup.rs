//! Startup of a Worker: interrupted durable work is resolved before new work is accepted.
use crate::config::WorkerRunLimits;
use crate::ids::BatchId;
use crate::journal::{BatchCommitOutcome, ClaimToken, OutcomeView};
use crate::processor::BatchProcessorError;
use crate::repository::RepositoryTransaction;
use crate::run_error::{counted, RecoveryError, RecoveryFailure, RunFailure, WorkerRunError};
use vstd::prelude::*;
use vstd::string::*;

verus! {

/// One claim that an earlier process left in processing.
#[derive(Clone, Copy, Debug, PartialEq, Eq, Structural)]
pub struct ProcessingClaim {
    /// Exact ownership of the request.
    pub token: ClaimToken,
    /// The acceptance number, if the package has one.
    pub sequence: Option<u64>,
}

/// Whether a claim was accepted before another; one without a number comes first.
pub open spec fn accepted_before(left: ProcessingClaim, right: ProcessingClaim) -> bool {
    match (left.sequence, right.sequence) {
        (None, Some(_)) => true,
        (Some(first), Some(second)) => first < second,
        _ => false,
    }
}

/// Claims in order with one more at its place.
pub open spec fn claim_placed(claims: Seq<ProcessingClaim>, claim: ProcessingClaim) -> Seq<
    ProcessingClaim,
>
    decreases claims.len(),
{
    if claims.len() == 0 || !accepted_before(claim, claims.last()) {
        claims.push(claim)
    } else {
        claim_placed(claims.drop_last(), claim).push(claims.last())
    }
}

/// Claims in the order of their acceptance.
pub open spec fn in_acceptance_order(claims: Seq<ProcessingClaim>) -> Seq<ProcessingClaim>
    decreases claims.len(),
{
    if claims.len() == 0 {
        Seq::empty()
    } else {
        claim_placed(in_acceptance_order(claims.drop_last()), claims.last())
    }
}

fn goes_before(left: ProcessingClaim, right: ProcessingClaim) -> (result: bool)
    ensures
        result == accepted_before(left, right),
{
    match (left.sequence, right.sequence) {
        (None, Some(_)) => true,
        (Some(first), Some(second)) => first < second,
        _ => false,
    }
}

fn place(claims: &mut Vec<ProcessingClaim>, claim: ProcessingClaim)
    ensures
        final(claims)@ == claim_placed(old(claims)@, claim),
{
    let ghost first = claims@;
    let mut at: usize = claims.len();
    assert(first.take(at as int) =~= first);
    assert(claim_placed(first, claim) =~= claim_placed(first.take(at as int), claim) + first.skip(
        at as int,
    ));
    while at > 0 && goes_before(claim, claims[at - 1])
        invariant
            at <= claims@.len(),
            claims@ == first,
            claim_placed(first, claim) == claim_placed(first.take(at as int), claim) + first.skip(
                at as int,
            ),
        decreases at,
    {
        proof {
            let head = first.take(at as int);
            assert(head.last() == first[at - 1]);
            assert(head.drop_last() =~= first.take(at - 1));
            assert(claim_placed(head, claim) + first.skip(at as int) =~= claim_placed(
                first.take(at - 1),
                claim,
            ) + first.skip(at - 1));
        }
        at -= 1;
    }
    proof {
        if at > 0 {
            assert(first.take(at as int).last() == first[at - 1]);
        }
    }
    claims.insert(at, claim);
    assert(claims@ =~= first.take(at as int).push(claim) + first.skip(at as int));
}

/// Orders claims by their acceptance.
pub fn sort_claims(claims: &Vec<ProcessingClaim>) -> (result: Vec<ProcessingClaim>)
    ensures
        result@ == in_acceptance_order(claims@),
{
    let mut result: Vec<ProcessingClaim> = Vec::new();
    let mut i: usize = 0;
    assert(result@ =~= Seq::<ProcessingClaim>::empty());
    while i < claims.len()
        invariant
            i <= claims@.len(),
            result@ == in_acceptance_order(claims@.take(i as int)),
        decreases claims@.len() - i,
    {
        assert(claims@.take(i + 1).drop_last() =~= claims@.take(i as int));
        place(&mut result, claims[i]);
        i += 1;
    }
    assert(claims@.take(claims@.len() as int) =~= claims@);
    result
}

proof fn placing_keeps_acceptance_order(claims: Seq<ProcessingClaim>, claim: ProcessingClaim)
    requires
        forall|i: int, j: int|
            0 <= i < j < claims.len() ==> !accepted_before(
                #[trigger] claims[j],
                #[trigger] claims[i],
            ),
    ensures
        forall|i: int, j: int|
            #![trigger claim_placed(claims, claim)[i], claim_placed(claims, claim)[j]]
            0 <= i < j < claim_placed(claims, claim).len() ==> !accepted_before(
                claim_placed(claims, claim)[j],
                claim_placed(claims, claim)[i],
            ),
        claim_placed(claims, claim).to_multiset() == claims.to_multiset().insert(claim),
    decreases claims.len(),
{
    broadcast use vstd::seq_lib::group_to_multiset_ensures;

    if claims.len() > 0 && accepted_before(claim, claims.last()) {
        let rest = claims.drop_last();
        placing_keeps_acceptance_order(rest, claim);
        let inner = claim_placed(rest, claim);
        let result = claim_placed(claims, claim);
        assert(claims =~= rest.push(claims.last()));
        assert(result.to_multiset() =~= claims.to_multiset().insert(claim));
        assert forall|i: int, j: int|
            #![trigger result[i], result[j]]
            0 <= i < j < result.len() implies !accepted_before(result[j], result[i]) by {
            assert(result[i] == inner[i]);
            if j == inner.len() {
                assert(inner.to_multiset().contains(inner[i]));
                if inner[i] != claim {
                    assert(rest.to_multiset().contains(inner[i]));
                    assert(rest.contains(inner[i]));
                    let k = choose|k: int| 0 <= k < rest.len() && rest[k] == inner[i];
                    assert(!accepted_before(claims[claims.len() - 1], claims[k]));
                }
            } else {
                assert(result[j] == inner[j]);
            }
        }
    }
}

/// Recovered claims are all kept, and none stands behind one that it was accepted before.
pub proof fn recovered_claims_are_ordered(claims: Seq<ProcessingClaim>)
    ensures
        in_acceptance_order(claims).to_multiset() == claims.to_multiset(),
        forall|i: int, j: int|
            #![trigger in_acceptance_order(claims)[i], in_acceptance_order(claims)[j]]
            0 <= i < j < in_acceptance_order(claims).len() ==> !accepted_before(
                in_acceptance_order(claims)[j],
                in_acceptance_order(claims)[i],
            ),
    decreases claims.len(),
{
    broadcast use vstd::seq_lib::group_to_multiset_ensures;

    if claims.len() > 0 {
        recovered_claims_are_ordered(claims.drop_last());
        placing_keeps_acceptance_order(in_acceptance_order(claims.drop_last()), claims.last());
        assert(claims =~= claims.drop_last().push(claims.last()));
    } else {
        assert(claims =~= Seq::<ProcessingClaim>::empty());
    }
}

/// The first claim from a position on that belongs to another batch.
pub open spec fn stray_from(claims: Seq<ProcessingClaim>, batch_id: BatchId, at: int) -> Option<
    BatchId,
>
    decreases claims.len() - at,
{
    if at < 0 || at >= claims.len() {
        None
    } else if claims[at].token.batch_id != batch_id {
        Some(claims[at].token.batch_id)
    } else {
        stray_from(claims, batch_id, at + 1)
    }
}

/// The one batch that interrupted claims belong to, if there are any.
pub open spec fn only_batch(claims: Seq<ProcessingClaim>) -> Result<
    Option<BatchId>,
    RecoveryFailure,
> {
    if claims.len() == 0 {
        Ok(None)
    } else {
        let expected = claims[0].token.batch_id;
        match stray_from(claims, expected, 1) {
            Some(found) => Err(RecoveryError::MultipleProcessingBatches { expected, found }),
            None => Ok(Some(expected)),
        }
    }
}

/// Finds the one batch that interrupted claims belong to.
pub fn single_processing_batch(claims: &Vec<ProcessingClaim>) -> (result: Result<
    Option<BatchId>,
    RecoveryError,
>)
    ensures
        (match result {
            Ok(batch) => Ok(batch),
            Err(error) => Err(error@),
        }) == only_batch(claims@),
{
    if claims.len() == 0 {
        return Ok(None);
    }
    let expected = claims[0].token.batch_id;
    let mut at: usize = 1;
    while at < claims.len()
        invariant
            1 <= at <= claims@.len(),
            expected == claims@[0].token.batch_id,
            stray_from(claims@, expected, 1) == stray_from(claims@, expected, at as int),
        decreases claims@.len() - at,
    {
        let found = claims[at].token.batch_id;
        if found != expected {
            return Err(RecoveryError::MultipleProcessingBatches { expected, found });
        }
        at += 1;
    }
    Ok(Some(expected))
}

/// Entries of the next recovery scan: no more than a scan step, nor than the claims that may still
/// be retained and one more, which shows that there are too many.
pub open spec fn recovery_scan(limits: WorkerRunLimits, recovered: int) -> int {
    let left = if limits.spec_recovery_requests() > recovered {
        limits.spec_recovery_requests() - recovered
    } else {
        0
    };
    let sentinel = if left < usize::MAX {
        left + 1
    } else {
        left
    };
    if limits.spec_scan_entries() < sentinel {
        limits.spec_scan_entries() as int
    } else {
        sentinel
    }
}

/// Decides the entries of the next recovery scan.
pub fn recovery_scan_entries(limits: WorkerRunLimits, recovered: usize) -> (entries: usize)
    ensures
        entries == recovery_scan(limits, recovered as int),
        entries > 0,
{
    let maximum: usize = limits.maximum_recovery_requests();
    let scan: usize = limits.maximum_scan_entries();
    let left: usize = if maximum > recovered {
        maximum - recovered
    } else {
        0
    };
    let sentinel: usize = if left < usize::MAX {
        left + 1
    } else {
        left
    };
    if scan < sentinel {
        scan
    } else {
        sentinel
    }
}

/// Durable work completed before a Worker accepts a new batch.
#[derive(Debug)]
pub enum StartupOutcome<O = BatchCommitOutcome> {
    /// No interrupted queue claims or repository journal existed.
    Clean,
    /// Claims made before a repository transaction began were returned to pending.
    Requeued {
        /// Batch whose claims were returned.
        batch_id: BatchId,
        /// Number of requests returned to pending.
        requests: usize,
    },
    /// An interrupted repository transaction was completed.
    Resumed {
        /// Batch whose transaction was completed.
        batch_id: BatchId,
        /// Exact committed or no-change result.
        outcome: O,
        /// Requests rejected before the recovered transaction began.
        claim_failures: usize,
    },
}

/// An outcome with its lists as sequences.
pub type StartupView = StartupOutcome<OutcomeView>;

impl View for StartupOutcome {
    type V = StartupView;

    open spec fn view(&self) -> StartupView {
        match *self {
            StartupOutcome::Clean => StartupOutcome::Clean,
            StartupOutcome::Requeued { batch_id, requests } => StartupOutcome::Requeued {
                batch_id,
                requests,
            },
            StartupOutcome::Resumed { batch_id, outcome, claim_failures } =>
                StartupOutcome::Resumed { batch_id, outcome: outcome@, claim_failures },
        }
    }
}

/// Result of interruptible Worker startup.
#[derive(Debug)]
pub enum InterruptibleStart<T> {
    /// Startup recovery completed and produced a ready value.
    Started(T),
    /// Shutdown was observed before startup recovery could complete.
    Stopped {
        /// Requests rejected before shutdown was observed.
        failed_requests: usize,
    },
}

impl<T> InterruptibleStart<T> {
    /// Maps the ready startup value without changing a stopped result.
    pub fn map<U, F: FnOnce(T) -> U>(self, map: F) -> (result: InterruptibleStart<U>)
        requires
            self matches InterruptibleStart::Started(value) ==> map.requires((value,)),
        ensures
            match self {
                InterruptibleStart::Started(value) => result matches InterruptibleStart::Started(
                    mapped,
                ) && map.ensures((value,), mapped),
                InterruptibleStart::Stopped { failed_requests } => result
                    == (InterruptibleStart::<U>::Stopped { failed_requests }),
            },
    {
        match self {
            InterruptibleStart::Started(value) => InterruptibleStart::Started(map(value)),
            InterruptibleStart::Stopped { failed_requests } => InterruptibleStart::Stopped {
                failed_requests,
            },
        }
    }
}

/// Where a startup stands.
#[derive(Clone, Copy, Debug, PartialEq, Eq, Structural)]
pub enum StartupPhase {
    /// Exclusive ownership of the queue is being taken.
    Opening,
    /// The journal is being summarized.
    Summarizing,
    /// Interrupted claims are being scanned.
    Scanning,
    /// Shutdown is being looked for after a scan.
    Scanned {
        /// Whether that was the last scan.
        complete: bool,
    },
    /// The interrupted transaction is being read.
    Discovering,
    /// Shutdown is being looked for after that.
    Discovered,
    /// Shutdown is being looked for before a claim is returned.
    Returning {
        /// The claim.
        at: usize,
    },
    /// A claim is being returned to pending.
    Requeueing {
        /// The claim.
        at: usize,
    },
    /// Shutdown is being looked for before the batch is processed.
    Replaying {
        /// The batch.
        batch_id: BatchId,
        /// Requests rejected before.
        claim_failures: usize,
    },
    /// The batch is being processed.
    Processing {
        /// The batch.
        batch_id: BatchId,
        /// Requests rejected before.
        claim_failures: usize,
    },
    /// Shutdown is being looked for before the batch is recovered.
    Resuming {
        /// The batch.
        batch_id: BatchId,
        /// Requests rejected before.
        claim_failures: usize,
    },
    /// The batch is being recovered.
    Recovering {
        /// The batch.
        batch_id: BatchId,
        /// Requests rejected before.
        claim_failures: usize,
    },
    /// The replication thread is being started.
    Replicating,
    /// Nothing is left to do.
    Ended,
}

/// What is done next.
#[derive(Debug)]
pub enum StartupAction<
    C = Vec<ProcessingClaim>,
    R = Result<InterruptibleStart<StartupOutcome>, WorkerRunError>,
> {
    /// Take exclusive ownership of the queue.
    OpenSession,
    /// Summarize the journal.
    Summarize,
    /// Scan interrupted claims.
    Scan {
        /// The number of entries.
        entries: usize,
    },
    /// Look whether shutdown is requested.
    PollStop,
    /// Read the interrupted transaction.
    Discover,
    /// Return a claim to pending.
    Requeue {
        /// The claim.
        token: ClaimToken,
    },
    /// Process a batch.
    Process {
        /// The batch.
        batch_id: BatchId,
        /// Its claims.
        claims: C,
        /// Requests rejected before.
        claim_failures: usize,
    },
    /// Recover a batch.
    Recover {
        /// The batch.
        batch_id: BatchId,
    },
    /// Start the replication thread.
    StartReplication,
    /// Nothing: the startup has ended.
    Finish(R),
}

/// The result of a startup with its lists and texts as sequences.
pub type StartupResult = Result<InterruptibleStart<StartupView>, RunFailure>;

/// An action with its lists and texts as sequences.
pub type StartupActionView = StartupAction<Seq<ProcessingClaim>, StartupResult>;

/// The view of the result of a startup.
pub open spec fn result_view(
    result: Result<InterruptibleStart<StartupOutcome>, WorkerRunError>,
) -> StartupResult {
    match result {
        Ok(InterruptibleStart::Started(outcome)) => Ok(InterruptibleStart::Started(outcome@)),
        Ok(InterruptibleStart::Stopped { failed_requests }) => Ok(
            InterruptibleStart::Stopped { failed_requests },
        ),
        Err(error) => Err(error@),
    }
}

impl View for StartupAction {
    type V = StartupActionView;

    open spec fn view(&self) -> StartupActionView {
        match *self {
            StartupAction::OpenSession => StartupAction::OpenSession,
            StartupAction::Summarize => StartupAction::Summarize,
            StartupAction::Scan { entries } => StartupAction::Scan { entries },
            StartupAction::PollStop => StartupAction::PollStop,
            StartupAction::Discover => StartupAction::Discover,
            StartupAction::Requeue { token } => StartupAction::Requeue { token },
            StartupAction::Process { batch_id, claims, claim_failures } => StartupAction::Process {
                batch_id,
                claims: claims@,
                claim_failures,
            },
            StartupAction::Recover { batch_id } => StartupAction::Recover { batch_id },
            StartupAction::StartReplication => StartupAction::StartReplication,
            StartupAction::Finish(result) => StartupAction::Finish(result_view(result)),
        }
    }
}

/// What came of an action.
#[derive(Debug)]
pub enum StartupReply {
    /// It was done.
    Done,
    /// The queue failed.
    QueueFailed {
        /// Concrete queue failure.
        source: String,
        /// Requests durably rejected before the failure.
        failed_requests: usize,
    },
    /// The processor failed.
    ProcessorFailed(BatchProcessorError),
    /// The interrupted transaction, if there is one.
    Transaction(Option<RepositoryTransaction>),
    /// Interrupted claims.
    Claims {
        /// The claims of this scan.
        claims: Vec<ProcessingClaim>,
        /// Whether that was the last scan.
        complete: bool,
    },
    /// Whether shutdown is requested.
    Stop(bool),
    /// The batch reached its outcome.
    Outcome(BatchCommitOutcome),
    /// The replication thread could not be started.
    ThreadFailed(String),
}

/// A startup.
#[derive(Debug)]
pub struct Startup<C = Vec<ProcessingClaim>, O = Option<StartupOutcome>> {
    /// Bounds of scans and batches.
    pub limits: WorkerRunLimits,
    /// Whether a replication thread is wanted.
    pub replication: bool,
    /// Where it stands.
    pub phase: StartupPhase,
    /// Rejected requests that the journal recorded.
    pub summary_failures: usize,
    /// Interrupted claims.
    pub claims: C,
    /// The interrupted transaction.
    pub transaction: Option<RepositoryTransaction>,
    /// What was completed.
    pub outcome: O,
}

/// A startup with its lists as sequences.
pub type StartupState = Startup<Seq<ProcessingClaim>, Option<StartupView>>;

impl View for Startup {
    type V = StartupState;

    open spec fn view(&self) -> StartupState {
        Startup {
            limits: self.limits,
            replication: self.replication,
            phase: self.phase,
            summary_failures: self.summary_failures,
            claims: self.claims@,
            transaction: self.transaction,
            outcome: match self.outcome {
                Some(outcome) => Some(outcome@),
                None => None,
            },
        }
    }
}

/// A startup and what it does next.
pub type StartupStep = (StartupState, StartupActionView);

/// A startup that goes on in a phase.
pub open spec fn proceed(
    state: StartupState,
    phase: StartupPhase,
    action: StartupActionView,
) -> StartupStep {
    (Startup { phase, ..state }, action)
}

/// A startup that ends.
pub open spec fn conclude(state: StartupState, result: StartupResult) -> StartupStep {
    proceed(state, StartupPhase::Ended, StartupAction::Finish(result))
}

/// A startup that was asked to stop.
pub open spec fn stopped(state: StartupState, failed_requests: usize) -> StartupStep {
    conclude(state, Ok(InterruptibleStart::Stopped { failed_requests }))
}

/// A startup that failed in the queue.
pub open spec fn queue_failed(
    state: StartupState,
    source: Seq<char>,
    failed_requests: usize,
) -> StartupStep {
    conclude(state, Err(WorkerRunError::Queue { source, failed_requests }))
}

/// Rejected requests that a transaction recorded.
pub open spec fn recorded_failures(transaction: Option<RepositoryTransaction>) -> usize {
    match transaction {
        Some(transaction) => transaction.spec_claim_failures(),
        None => 0,
    }
}

/// A startup that scans interrupted claims.
pub open spec fn scanning(state: StartupState) -> StartupStep {
    proceed(
        state,
        StartupPhase::Scanning,
        StartupAction::Scan {
            entries: recovery_scan(state.limits, state.claims.len() as int) as usize,
        },
    )
}

/// A startup whose interrupted work is resolved.
pub open spec fn resolved(state: StartupState, outcome: StartupView) -> StartupStep {
    if state.replication {
        proceed(
            Startup { outcome: Some(outcome), ..state },
            StartupPhase::Replicating,
            StartupAction::StartReplication,
        )
    } else {
        conclude(state, Ok(InterruptibleStart::Started(outcome)))
    }
}

/// A startup that returns claims from one on.
pub open spec fn returning(state: StartupState, at: usize) -> StartupStep {
    if at >= state.claims.len() {
        resolved(
            state,
            StartupOutcome::Requeued {
                batch_id: state.claims[0].token.batch_id,
                requests: state.claims.len() as usize,
            },
        )
    } else {
        proceed(state, StartupPhase::Returning { at }, StartupAction::PollStop)
    }
}

/// How a startup resolves interrupted claims and an interrupted transaction.
pub open spec fn resolving(state: StartupState) -> StartupStep {
    match (only_batch(state.claims), state.transaction) {
        (Err(failure), _) => conclude(state, Err(counted(failure, state.summary_failures))),
        (Ok(None), None) => resolved(state, StartupOutcome::Clean),
        (Ok(Some(_)), None) => returning(state, 0),
        (Ok(processing), Some(transaction)) => {
            let repository = transaction.spec_batch_id();
            let claim_failures = transaction.spec_claim_failures();
            if processing matches Some(batch) && batch != repository {
                conclude(
                    state,
                    Err(
                        WorkerRunError::TransactionBatchMismatch {
                            processing: processing->0,
                            repository,
                            failed_requests: claim_failures,
                        },
                    ),
                )
            } else {
                match transaction {
                    RepositoryTransaction::Recoverable { batch_id, .. } => proceed(
                        state,
                        StartupPhase::Resuming { batch_id, claim_failures },
                        StartupAction::PollStop,
                    ),
                    RepositoryTransaction::Preparing { batch_id, .. } => if processing is Some {
                        proceed(
                            state,
                            StartupPhase::Replaying { batch_id, claim_failures },
                            StartupAction::PollStop,
                        )
                    } else {
                        conclude(
                            state,
                            Err(
                                WorkerRunError::MissingProcessingClaims {
                                    batch_id,
                                    failed_requests: claim_failures,
                                },
                            ),
                        )
                    },
                }
            }
        },
    }
}

/// How a startup goes on after a scan.
pub open spec fn scanned(state: StartupState, complete: bool) -> StartupStep {
    if !complete {
        scanning(state)
    } else {
        let state = Startup { claims: in_acceptance_order(state.claims), ..state };
        match only_batch(state.claims) {
            Err(failure) => conclude(state, Err(counted(failure, state.summary_failures))),
            Ok(_) => proceed(state, StartupPhase::Discovering, StartupAction::Discover),
        }
    }
}

/// How the collection of interrupted claims goes on.
pub open spec fn collecting(state: StartupState, reply: StartupReply) -> StartupStep {
    match (state.phase, reply) {
        (StartupPhase::Opening, StartupReply::Done) => proceed(
            state,
            StartupPhase::Summarizing,
            StartupAction::Summarize,
        ),
        (StartupPhase::Opening, StartupReply::QueueFailed { source, failed_requests }) =>
            queue_failed(state, source@, failed_requests),
        (StartupPhase::Summarizing, StartupReply::Transaction(transaction)) => scanning(
            Startup { summary_failures: recorded_failures(transaction), ..state },
        ),
        (StartupPhase::Summarizing, StartupReply::ProcessorFailed(error)) => conclude(
            state,
            Err(WorkerRunError::Processor { source: error@, failed_requests: 0 }),
        ),
        (StartupPhase::Scanning, StartupReply::QueueFailed { source, failed_requests }) => conclude(
            state,
            Err(
                counted(
                    RecoveryError::Queue { source: source@, failed_requests },
                    state.summary_failures,
                ),
            ),
        ),
        (StartupPhase::Scanning, StartupReply::Claims { claims, complete }) => {
            let state = Startup { claims: state.claims + claims@, ..state };
            if state.claims.len() > state.limits.spec_recovery_requests() {
                conclude(
                    state,
                    Err(
                        counted(
                            RecoveryError::TooManyProcessingClaims {
                                maximum: state.limits.spec_recovery_requests(),
                            },
                            state.summary_failures,
                        ),
                    ),
                )
            } else {
                proceed(state, StartupPhase::Scanned { complete }, StartupAction::PollStop)
            }
        },
        (StartupPhase::Scanned { .. }, StartupReply::Stop(true)) => stopped(
            state,
            state.summary_failures,
        ),
        (StartupPhase::Scanned { complete }, StartupReply::Stop(false)) => scanned(state, complete),
        (StartupPhase::Discovering, StartupReply::Transaction(transaction)) => proceed(
            Startup { transaction, ..state },
            StartupPhase::Discovered,
            StartupAction::PollStop,
        ),
        (StartupPhase::Discovering, StartupReply::ProcessorFailed(error)) => conclude(
            state,
            Err(
                WorkerRunError::Processor {
                    source: error@,
                    failed_requests: state.summary_failures,
                },
            ),
        ),
        (StartupPhase::Discovered, StartupReply::Stop(true)) => stopped(
            state,
            recorded_failures(state.transaction),
        ),
        (StartupPhase::Discovered, StartupReply::Stop(false)) => resolving(state),
        _ => conclude(state, Err(WorkerRunError::RecoveryRequired)),
    }
}

/// How the resolution of interrupted work goes on.
pub open spec fn replaying(state: StartupState, reply: StartupReply) -> StartupStep {
    match (state.phase, reply) {
        (StartupPhase::Returning { .. }, StartupReply::Stop(true)) => stopped(state, 0),
        (StartupPhase::Returning { at }, StartupReply::Stop(false)) => if at < state.claims.len() {
            proceed(
                state,
                StartupPhase::Requeueing { at },
                StartupAction::Requeue { token: state.claims[at as int].token },
            )
        } else {
            conclude(state, Err(WorkerRunError::RecoveryRequired))
        },
        (StartupPhase::Requeueing { at }, StartupReply::Done) => if at < state.claims.len() {
            returning(state, (at + 1) as usize)
        } else {
            conclude(state, Err(WorkerRunError::RecoveryRequired))
        },
        (StartupPhase::Requeueing { .. }, StartupReply::QueueFailed { source, failed_requests }) =>
            queue_failed(state, source@, failed_requests),
        (StartupPhase::Replaying { claim_failures, .. }, StartupReply::Stop(true)) => stopped(
            state,
            claim_failures,
        ),
        (StartupPhase::Replaying { batch_id, claim_failures }, StartupReply::Stop(false)) =>
            proceed(
                state,
                StartupPhase::Processing { batch_id, claim_failures },
                StartupAction::Process { batch_id, claims: state.claims, claim_failures },
            ),
        (StartupPhase::Resuming { claim_failures, .. }, StartupReply::Stop(true)) => stopped(
            state,
            claim_failures,
        ),
        (StartupPhase::Resuming { batch_id, claim_failures }, StartupReply::Stop(false)) => proceed(
            state,
            StartupPhase::Recovering { batch_id, claim_failures },
            StartupAction::Recover { batch_id },
        ),
        (
            StartupPhase::Processing { batch_id, claim_failures },
            StartupReply::Outcome(outcome),
        ) => resolved(state, StartupOutcome::Resumed { batch_id, outcome: outcome@, claim_failures }),
        (
            StartupPhase::Recovering { batch_id, claim_failures },
            StartupReply::Outcome(outcome),
        ) => resolved(state, StartupOutcome::Resumed { batch_id, outcome: outcome@, claim_failures }),
        (
            StartupPhase::Processing { claim_failures, .. },
            StartupReply::ProcessorFailed(error),
        ) => conclude(
            state,
            Err(
                WorkerRunError::Processor { source: error@, failed_requests: claim_failures },
            ),
        ),
        (
            StartupPhase::Recovering { claim_failures, .. },
            StartupReply::ProcessorFailed(error),
        ) => conclude(
            state,
            Err(
                WorkerRunError::Processor { source: error@, failed_requests: claim_failures },
            ),
        ),
        (StartupPhase::Replicating, StartupReply::Done) => match state.outcome {
            Some(outcome) => conclude(
                Startup { outcome: None, ..state },
                Ok(InterruptibleStart::Started(outcome)),
            ),
            None => conclude(state, Err(WorkerRunError::RecoveryRequired)),
        },
        (StartupPhase::Replicating, StartupReply::ThreadFailed(reason)) => conclude(
            state,
            Err(WorkerRunError::ReplicationThread(reason@)),
        ),
        _ => conclude(state, Err(WorkerRunError::RecoveryRequired)),
    }
}

/// Whether interrupted work is still being collected.
pub open spec fn is_collecting(phase: StartupPhase) -> bool {
    phase is Opening || phase is Summarizing || phase is Scanning || phase is Scanned
        || phase is Discovering || phase is Discovered
}

/// How a startup goes on after a reply. A reply that does not fit ends it.
pub open spec fn startup_stepped(state: StartupState, reply: StartupReply) -> StartupStep {
    if is_collecting(state.phase) {
        collecting(state, reply)
    } else {
        replaying(state, reply)
    }
}

/// How a startup begins.
pub open spec fn startup_begun(limits: WorkerRunLimits, replication: bool) -> StartupStep {
    (
        Startup {
            limits,
            replication,
            phase: StartupPhase::Opening,
            summary_failures: 0,
            claims: Seq::empty(),
            transaction: None,
            outcome: None,
        },
        StartupAction::OpenSession,
    )
}

impl Startup {
    /// Begins a startup.
    pub fn begin(limits: WorkerRunLimits, replication: bool) -> (result: (Startup, StartupAction))
        ensures
            (result.0@, result.1@) == startup_begun(limits, replication),
    {
        let claims: Vec<ProcessingClaim> = Vec::new();
        assert(claims@ =~= Seq::<ProcessingClaim>::empty());
        (
            Startup {
                limits,
                replication,
                phase: StartupPhase::Opening,
                summary_failures: 0,
                claims,
                transaction: None,
                outcome: None,
            },
            StartupAction::OpenSession,
        )
    }

    fn proceed(self, phase: StartupPhase, action: StartupAction) -> (result: (
        Startup,
        StartupAction,
    ))
        ensures
            (result.0@, result.1@) == proceed(self@, phase, action@),
    {
        let mut state = self;
        state.phase = phase;
        (state, action)
    }

    fn fail(self, error: WorkerRunError) -> (result: (Startup, StartupAction))
        ensures
            (result.0@, result.1@) == conclude(self@, Err(error@)),
    {
        self.proceed(StartupPhase::Ended, StartupAction::Finish(Err(error)))
    }

    fn stop(self, failed_requests: usize) -> (result: (Startup, StartupAction))
        ensures
            (result.0@, result.1@) == stopped(self@, failed_requests),
    {
        self.proceed(
            StartupPhase::Ended,
            StartupAction::Finish(Ok(InterruptibleStart::Stopped { failed_requests })),
        )
    }

    fn scan(self) -> (result: (Startup, StartupAction))
        ensures
            (result.0@, result.1@) == scanning(self@),
    {
        let entries: usize = recovery_scan_entries(self.limits, self.claims.len());
        self.proceed(StartupPhase::Scanning, StartupAction::Scan { entries })
    }

    fn resolve(self, outcome: StartupOutcome) -> (result: (Startup, StartupAction))
        ensures
            (result.0@, result.1@) == resolved(self@, outcome@),
    {
        let mut state = self;
        if state.replication {
            state.outcome = Some(outcome);
            state.proceed(StartupPhase::Replicating, StartupAction::StartReplication)
        } else {
            state.proceed(
                StartupPhase::Ended,
                StartupAction::Finish(Ok(InterruptibleStart::Started(outcome))),
            )
        }
    }

    fn give_back(self, at: usize) -> (result: (Startup, StartupAction))
        requires
            self.claims@.len() > 0,
        ensures
            (result.0@, result.1@) == returning(self@, at),
    {
        let requests: usize = self.claims.len();
        if at >= requests {
            let batch_id = self.claims[0].token.batch_id;
            self.resolve(StartupOutcome::Requeued { batch_id, requests })
        } else {
            self.proceed(StartupPhase::Returning { at }, StartupAction::PollStop)
        }
    }

    fn resolve_interrupted(self) -> (result: (Startup, StartupAction))
        ensures
            (result.0@, result.1@) == resolving(self@),
    {
        let processing = match single_processing_batch(&self.claims) {
            Err(error) => {
                let failed_requests: usize = self.summary_failures;
                return self.fail(error.with_failed_requests(failed_requests));
            },
            Ok(processing) => processing,
        };
        let transaction = match self.transaction {
            None => {
                return match processing {
                    None => self.resolve(StartupOutcome::Clean),
                    Some(_) => self.give_back(0),
                };
            },
            Some(transaction) => transaction,
        };
        let repository = transaction.batch_id();
        let claim_failures: usize = transaction.claim_failures();
        if let Some(batch) = processing {
            if batch != repository {
                return self.fail(
                    WorkerRunError::TransactionBatchMismatch {
                        processing: batch,
                        repository,
                        failed_requests: claim_failures,
                    },
                );
            }
        }
        match transaction {
            RepositoryTransaction::Recoverable { batch_id, .. } => self.proceed(
                StartupPhase::Resuming { batch_id, claim_failures },
                StartupAction::PollStop,
            ),
            RepositoryTransaction::Preparing { batch_id, .. } => if processing.is_some() {
                self.proceed(
                    StartupPhase::Replaying { batch_id, claim_failures },
                    StartupAction::PollStop,
                )
            } else {
                self.fail(
                    WorkerRunError::MissingProcessingClaims {
                        batch_id,
                        failed_requests: claim_failures,
                    },
                )
            },
        }
    }

    fn end_scan(self, complete: bool) -> (result: (Startup, StartupAction))
        ensures
            (result.0@, result.1@) == scanned(self@, complete),
    {
        if !complete {
            return self.scan();
        }
        let mut state = self;
        let claims = sort_claims(&state.claims);
        state.claims = claims;
        match single_processing_batch(&state.claims) {
            Err(error) => {
                let failed_requests: usize = state.summary_failures;
                state.fail(error.with_failed_requests(failed_requests))
            },
            Ok(_) => state.proceed(StartupPhase::Discovering, StartupAction::Discover),
        }
    }

    fn collect(self, reply: StartupReply) -> (result: (Startup, StartupAction))
        ensures
            (result.0@, result.1@) == collecting(self@, reply),
    {
        let mut state = self;
        match (state.phase, reply) {
            (StartupPhase::Opening, StartupReply::Done) => state.proceed(
                StartupPhase::Summarizing,
                StartupAction::Summarize,
            ),
            (StartupPhase::Opening, StartupReply::QueueFailed { source, failed_requests }) =>
                state.fail(WorkerRunError::Queue { source, failed_requests }),
            (StartupPhase::Summarizing, StartupReply::Transaction(transaction)) => {
                state.summary_failures = match transaction {
                    Some(transaction) => transaction.claim_failures(),
                    None => 0,
                };
                state.scan()
            },
            (StartupPhase::Summarizing, StartupReply::ProcessorFailed(error)) => state.fail(
                WorkerRunError::Processor { source: error, failed_requests: 0 },
            ),
            (StartupPhase::Scanning, StartupReply::QueueFailed { source, failed_requests }) => {
                let recorded: usize = state.summary_failures;
                let error = RecoveryError::Queue { source, failed_requests };
                state.fail(error.with_failed_requests(recorded))
            },
            (StartupPhase::Scanning, StartupReply::Claims { claims, complete }) => {
                let mut more = claims;
                state.claims.append(&mut more);
                let maximum: usize = state.limits.maximum_recovery_requests();
                if state.claims.len() > maximum {
                    let recorded: usize = state.summary_failures;
                    let error = RecoveryError::TooManyProcessingClaims { maximum };
                    state.fail(error.with_failed_requests(recorded))
                } else {
                    state.proceed(StartupPhase::Scanned { complete }, StartupAction::PollStop)
                }
            },
            (StartupPhase::Scanned { .. }, StartupReply::Stop(true)) => {
                let failed_requests: usize = state.summary_failures;
                state.stop(failed_requests)
            },
            (StartupPhase::Scanned { complete }, StartupReply::Stop(false)) => state.end_scan(
                complete,
            ),
            (StartupPhase::Discovering, StartupReply::Transaction(transaction)) => {
                state.transaction = transaction;
                state.proceed(StartupPhase::Discovered, StartupAction::PollStop)
            },
            (StartupPhase::Discovering, StartupReply::ProcessorFailed(error)) => {
                let failed_requests: usize = state.summary_failures;
                state.fail(WorkerRunError::Processor { source: error, failed_requests })
            },
            (StartupPhase::Discovered, StartupReply::Stop(true)) => {
                let failed_requests: usize = match state.transaction {
                    Some(transaction) => transaction.claim_failures(),
                    None => 0,
                };
                state.stop(failed_requests)
            },
            (StartupPhase::Discovered, StartupReply::Stop(false)) => state.resolve_interrupted(),
            _ => state.fail(WorkerRunError::RecoveryRequired),
        }
    }

    fn copied_claims(&self) -> (copy: Vec<ProcessingClaim>)
        ensures
            copy@ == self.claims@,
    {
        let mut copy: Vec<ProcessingClaim> = Vec::new();
        let mut i: usize = 0;
        while i < self.claims.len()
            invariant
                i <= self.claims@.len(),
                copy@ == self.claims@.take(i as int),
            decreases self.claims@.len() - i,
        {
            copy.push(self.claims[i]);
            assert(self.claims@.take(i as int).push(self.claims@[i as int])
                =~= self.claims@.take(i + 1));
            i += 1;
        }
        assert(self.claims@.take(self.claims@.len() as int) =~= self.claims@);
        copy
    }

    fn replay(self, reply: StartupReply) -> (result: (Startup, StartupAction))
        ensures
            (result.0@, result.1@) == replaying(self@, reply),
    {
        let mut state = self;
        let count: usize = state.claims.len();
        match (state.phase, reply) {
            (StartupPhase::Returning { .. }, StartupReply::Stop(true)) => state.stop(0),
            (StartupPhase::Returning { at }, StartupReply::Stop(false)) => if at < count {
                let token = state.claims[at].token;
                state.proceed(StartupPhase::Requeueing { at }, StartupAction::Requeue { token })
            } else {
                state.fail(WorkerRunError::RecoveryRequired)
            },
            (StartupPhase::Requeueing { at }, StartupReply::Done) => if at < count {
                state.give_back(at + 1)
            } else {
                state.fail(WorkerRunError::RecoveryRequired)
            },
            (
                StartupPhase::Requeueing { .. },
                StartupReply::QueueFailed { source, failed_requests },
            ) => state.fail(WorkerRunError::Queue { source, failed_requests }),
            (StartupPhase::Replaying { claim_failures, .. }, StartupReply::Stop(true)) =>
                state.stop(claim_failures),
            (StartupPhase::Replaying { batch_id, claim_failures }, StartupReply::Stop(false)) => {
                let claims = state.copied_claims();
                state.proceed(
                    StartupPhase::Processing { batch_id, claim_failures },
                    StartupAction::Process { batch_id, claims, claim_failures },
                )
            },
            (StartupPhase::Resuming { claim_failures, .. }, StartupReply::Stop(true)) => state.stop(
                claim_failures,
            ),
            (StartupPhase::Resuming { batch_id, claim_failures }, StartupReply::Stop(false)) =>
                state.proceed(
                    StartupPhase::Recovering { batch_id, claim_failures },
                    StartupAction::Recover { batch_id },
                ),
            (
                StartupPhase::Processing { batch_id, claim_failures },
                StartupReply::Outcome(outcome),
            ) => state.resolve(StartupOutcome::Resumed { batch_id, outcome, claim_failures }),
            (
                StartupPhase::Recovering { batch_id, claim_failures },
                StartupReply::Outcome(outcome),
            ) => state.resolve(StartupOutcome::Resumed { batch_id, outcome, claim_failures }),
            (
                StartupPhase::Processing { claim_failures, .. },
                StartupReply::ProcessorFailed(error),
            ) => state.fail(
                WorkerRunError::Processor { source: error, failed_requests: claim_failures },
            ),
            (
                StartupPhase::Recovering { claim_failures, .. },
                StartupReply::ProcessorFailed(error),
            ) => state.fail(
                WorkerRunError::Processor { source: error, failed_requests: claim_failures },
            ),
            (StartupPhase::Replicating, StartupReply::Done) => match state.outcome.take() {
                Some(outcome) => state.proceed(
                    StartupPhase::Ended,
                    StartupAction::Finish(Ok(InterruptibleStart::Started(outcome))),
                ),
                None => state.fail(WorkerRunError::RecoveryRequired),
            },
            (StartupPhase::Replicating, StartupReply::ThreadFailed(reason)) => state.fail(
                WorkerRunError::ReplicationThread(reason),
            ),
            _ => state.fail(WorkerRunError::RecoveryRequired),
        }
    }

    /// Decides what comes after a reply.
    pub fn step(self, reply: StartupReply) -> (result: (Startup, StartupAction))
        ensures
            (result.0@, result.1@) == startup_stepped(self@, reply),
    {
        match self.phase {
            StartupPhase::Opening | StartupPhase::Summarizing | StartupPhase::Scanning
            | StartupPhase::Scanned { .. } | StartupPhase::Discovering
            | StartupPhase::Discovered => self.collect(reply),
            _ => self.replay(reply),
        }
    }
}

/// A batch is replayed or resumed only if the journal names it, and only if the interrupted claims,
/// where there are any, all belong to it.
pub proof fn resumed_batches_agree(state: StartupState)
    ensures
        resolving(state).0.phase matches StartupPhase::Replaying { batch_id, .. } ==> (
        state.transaction matches Some(transaction) && transaction.spec_batch_id() == batch_id
            && only_batch(state.claims) == Ok::<Option<BatchId>, RecoveryFailure>(Some(batch_id))),
        resolving(state).0.phase matches StartupPhase::Resuming { batch_id, .. } ==> (
        state.transaction matches Some(transaction) && transaction.spec_batch_id() == batch_id && (
        only_batch(state.claims) matches Ok(processing) && (processing matches Some(batch) ==> batch
            == batch_id))),
{
}

proof fn stray_is_absent(claims: Seq<ProcessingClaim>, batch_id: BatchId, at: int)
    requires
        0 <= at,
        stray_from(claims, batch_id, at) is None,
    ensures
        forall|i: int| at <= i < claims.len() ==> (#[trigger] claims[i]).token.batch_id == batch_id,
    decreases claims.len() - at,
{
    if at < claims.len() {
        stray_is_absent(claims, batch_id, at + 1);
    }
}

/// Claims that are taken to belong to one batch all do.
pub proof fn interrupted_claims_share_a_batch(claims: Seq<ProcessingClaim>)
    ensures
        only_batch(claims) matches Ok(Some(batch_id)) ==> forall|i: int|
            0 <= i < claims.len() ==> (#[trigger] claims[i]).token.batch_id == batch_id,
{
    if only_batch(claims) matches Ok(Some(_)) {
        stray_is_absent(claims, claims[0].token.batch_id, 1);
    }
}

/// A startup after a claim was returned, if nothing stops it.
pub open spec fn after_return(step: StartupStep) -> StartupStep {
    startup_stepped(startup_stepped(step.0, StartupReply::Stop(false)).0, StartupReply::Done)
}

/// A startup after some claims were returned.
pub open spec fn returned(state: StartupState, count: nat) -> StartupStep
    decreases count,
{
    if count == 0 {
        returning(state, 0)
    } else {
        after_return(returned(state, (count - 1) as nat))
    }
}

/// Claims without a transaction are all returned to pending, one after the other, and then counted.
pub proof fn unstarted_claims_are_returned(state: StartupState, count: nat)
    requires
        count <= state.claims.len() <= usize::MAX,
        state.claims.len() > 0,
        !state.replication,
    ensures
        count < state.claims.len() ==> startup_stepped(
            returned(state, count).0,
            StartupReply::Stop(false),
        ).1 == (StartupActionView::Requeue { token: state.claims[count as int].token }),
        count == state.claims.len() ==> returned(state, count).1 == StartupActionView::Finish(
            Ok(
                InterruptibleStart::Started(
                    StartupOutcome::Requeued {
                        batch_id: state.claims[0].token.batch_id,
                        requests: state.claims.len() as usize,
                    },
                ),
            ),
        ),
    decreases count,
{
    returned_stands(state, count);
}

proof fn returned_stands(state: StartupState, count: nat)
    requires
        count <= state.claims.len() <= usize::MAX,
        state.claims.len() > 0,
        !state.replication,
    ensures
        returned(state, count) == returning(
            Startup { phase: returned(state, count).0.phase, ..state },
            count as usize,
        ),
    decreases count,
{
    if count > 0 {
        returned_stands(state, (count - 1) as nat);
        let earlier = returned(state, (count - 1) as nat);
        assert(earlier.0.phase == (StartupPhase::Returning { at: (count - 1) as usize }));
        assert(earlier.0.claims == state.claims);
        assert(returned(state, count) == after_return(earlier));
    }
}

} // verus!
