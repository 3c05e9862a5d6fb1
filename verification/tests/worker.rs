use agent_knowledge::apply::ErrorCode;
use agent_knowledge::clock::Timestamp;
use agent_knowledge::config::{
    check_config_length, host_path, ConfigClock, WireBatch, WireQuartz, WireReplication,
    WireRepository, WireStorage, WireWorkerConfig, WorkerConfigError, WorkerRunLimits,
    WorkerSettings, MAXIMUM_WORKER_CONFIG_BYTES,
};
use agent_knowledge::git_error::GitTransactionError;
use agent_knowledge::git_text::ObjectId;
use agent_knowledge::ids::{BatchId, RequestId, Revision};
use agent_knowledge::journal::{BatchCommitOutcome, ClaimToken, RequestFailure};
use agent_knowledge::path::ContentPath;
use agent_knowledge::processor::{
    BatchProcessor, BatchProcessorError, ProcessorAction, ProcessorReply, Publication,
};
use agent_knowledge::read_error::CommittedReadError;
use agent_knowledge::replication::{
    RemoteReplicationError, RemoteReplicationOutcome, ReplicationState, REPLICATION_STATE_VERSION,
};
use agent_knowledge::repository::RepositoryTransaction;
use agent_knowledge::run_error::{RecoveryError, WorkerRunError};
use agent_knowledge::runtime::{
    replication_report, replication_wait, CycleAction, CycleOutcome, CycleReply, PollSettings,
    ReplicationReport, WorkerPollOutcome, WorkerRunOutcome, WorkerRuntime,
    REPLICATION_VERIFICATION_INTERVAL,
};
use agent_knowledge::schedule::{
    BatchCloseReason, BatchReadiness, BatchSchedule, BatchScheduleError, PendingSnapshot, SECOND,
};
use agent_knowledge::search_error::SearchIndexStoreError;
use agent_knowledge::startup::{
    recovery_scan_entries, single_processing_batch, sort_claims, InterruptibleStart,
    ProcessingClaim, Startup, StartupAction, StartupOutcome, StartupReply,
};
use agent_knowledge::status::{
    durable_replication, operational_status, publication_status, queue_status, replication_status, steady_publication,
    ActiveReleaseStatus, DurableReplicationStatus, OperationalStatusError, QueueOverview,
    ReleaseMaintenanceError, ReplicationStatus, CURRENT_OPERATIONAL_STATUS_VERSION,
};
use agent_knowledge::topology::{
    validate_opened_topology, validate_resolved_topology, Nesting, OpenedTopology, Resolution,
    TopologyHalt, WorkerOpenError,
};
use ulid::Ulid;

const REQUEST_ID: &str = "01K00000000000000000000001";
const BATCH_ID: &str = "01K00000000000000000000003";
const SECOND_REQUEST_ID: &str = "01K00000000000000000000004";
const THIRD_REQUEST_ID: &str = "01K00000000000000000000006";

fn number(text: &str) -> u128 {
    match Ulid::from_string(text) {
        Ok(ulid) => ulid.0,
        Err(error) => panic!("fixture identity must parse: {error}"),
    }
}

fn batch_id() -> BatchId {
    BatchId { value: number(BATCH_ID) }
}

fn request(text: &str) -> RequestId {
    RequestId { value: number(text) }
}

fn object(value: u64) -> ObjectId {
    match ObjectId::parse(&format!("{value:040x}")) {
        Some(id) => id,
        None => panic!("fixture object must parse"),
    }
}

fn timestamp(seconds: i128) -> Timestamp {
    match Timestamp::new(seconds * SECOND, 0) {
        Some(timestamp) => timestamp,
        None => panic!("fixture timestamp must be valid"),
    }
}

fn created_at() -> Timestamp {
    timestamp(1_785_470_400)
}

fn later(time: Timestamp, seconds: i128) -> Timestamp {
    match time.checked_add(seconds * SECOND) {
        Some(timestamp) => timestamp,
        None => panic!("fixture timestamp must be valid"),
    }
}

fn schedule() -> BatchSchedule {
    match BatchSchedule::new(30 * SECOND, 300 * SECOND) {
        Ok(schedule) => schedule,
        Err(error) => panic!("fixture schedule must be valid: {}", error.message()),
    }
}

fn pending(
    requests: usize,
    has_invalid_acceptance: bool,
    oldest_accepted_at: Option<Timestamp>,
    newest_accepted_at: Option<Timestamp>,
) -> PendingSnapshot {
    PendingSnapshot {
        requests,
        has_invalid_acceptance,
        oldest_accepted_at,
        newest_accepted_at,
        maximum_sequence: 0,
    }
}

#[test]
fn rejects_nonpositive_time_thresholds() {
    assert_eq!(
        BatchSchedule::new(0, 300 * SECOND),
        Err(BatchScheduleError::InvalidDebounce)
    );
    assert_eq!(
        BatchSchedule::new(30 * SECOND, -SECOND),
        Err(BatchScheduleError::InvalidMaximumAge)
    );
}

#[test]
fn empty_and_invalid_snapshots_do_not_wait() {
    assert_eq!(
        schedule().readiness(pending(0, false, None, None), 100, timestamp(0)),
        BatchReadiness::Empty
    );
    assert_eq!(
        schedule().readiness(pending(1, true, None, None), 100, timestamp(0)),
        BatchReadiness::Ready { reason: BatchCloseReason::InvalidAcceptance }
    );
}

#[test]
fn closes_on_count_age_and_inactivity_thresholds() {
    let schedule = schedule();
    let oldest = timestamp(1_000);
    let newest = timestamp(1_100);
    assert_eq!(
        schedule.readiness(pending(100, false, Some(oldest), Some(newest)), 100, newest),
        BatchReadiness::Ready { reason: BatchCloseReason::MaximumRequests }
    );
    assert_eq!(
        schedule.readiness(
            pending(2, false, Some(oldest), Some(newest)),
            100,
            later(oldest, 300)
        ),
        BatchReadiness::Ready { reason: BatchCloseReason::MaximumAge }
    );
    assert_eq!(
        schedule.readiness(
            pending(2, false, Some(oldest), Some(newest)),
            100,
            later(newest, 30)
        ),
        BatchReadiness::Ready { reason: BatchCloseReason::Debounce }
    );
}

#[test]
fn waits_until_the_earlier_time_threshold() {
    let oldest = timestamp(1_000);
    let newest = timestamp(1_280);
    assert_eq!(
        schedule().readiness(
            pending(2, false, Some(oldest), Some(newest)),
            100,
            timestamp(1_290)
        ),
        BatchReadiness::Waiting { ready_at: timestamp(1_300) }
    );
    let waiting = pending(2, false, Some(oldest), Some(timestamp(1_001)));
    assert_eq!(
        schedule().readiness(waiting, 100, timestamp(1_030)),
        BatchReadiness::Waiting { ready_at: timestamp(1_031) }
    );
    assert_eq!(
        schedule().readiness(waiting, 100, timestamp(1_031)),
        BatchReadiness::Ready { reason: BatchCloseReason::Debounce }
    );
}

#[derive(Clone, Copy, Debug, PartialEq)]
enum QueueState {
    Pending,
    Processing,
    Completed,
    Failed,
}

struct Queued {
    id: RequestId,
    sequence: u64,
    state: QueueState,
    token: ClaimToken,
    accepted_at: Timestamp,
    valid: bool,
}

#[derive(Clone, Copy, PartialEq)]
enum Journal {
    Preparing,
    Committed(ObjectId),
    NoChanges,
}

/// A queue, a repository and a release store in memory.
struct Deployment {
    queue: Vec<Queued>,
    journal: Option<(BatchId, Journal)>,
    official: ObjectId,
    active: Option<ObjectId>,
    prepared: Option<ObjectId>,
    staging: bool,
    build_fails: bool,
    build_mutates: bool,
    missing_document: bool,
    publication_interrupted: bool,
    observation: Option<(usize, u64)>,
    scanned: usize,
    next: u64,
    log: Vec<&'static str>,
}

impl Deployment {
    fn new() -> Self {
        Deployment {
            queue: Vec::new(),
            journal: None,
            official: object(1),
            active: None,
            prepared: None,
            staging: false,
            build_fails: false,
            build_mutates: false,
            missing_document: false,
            publication_interrupted: false,
            observation: None,
            scanned: 0,
            next: 100,
            log: Vec::new(),
        }
    }

    fn enqueue(&mut self, id: &str) {
        let sequence = self.queue.len() as u64 + 1;
        let id = request(id);
        self.queue.push(Queued {
            id,
            sequence,
            state: QueueState::Pending,
            token: ClaimToken { request_id: id, batch_id: batch_id(), attempt: 0 },
            accepted_at: created_at(),
            valid: true,
        });
    }

    fn claim(&mut self, id: &str, batch: BatchId) {
        let id = request(id);
        for queued in &mut self.queue {
            if queued.id == id {
                queued.state = QueueState::Processing;
                queued.token.batch_id = batch;
                queued.token.attempt += 1;
            }
        }
    }

    fn state(&self, id: &str) -> QueueState {
        let id = request(id);
        match self.queue.iter().find(|queued| queued.id == id) {
            Some(queued) => queued.state,
            None => panic!("request must be queued"),
        }
    }

    fn settle(&mut self, token: ClaimToken, state: QueueState) {
        for queued in &mut self.queue {
            if queued.token == token {
                assert_eq!(queued.state, QueueState::Processing);
                queued.state = state;
            }
        }
    }

    fn tokens(&self) -> Vec<ClaimToken> {
        self.queue
            .iter()
            .filter(|queued| queued.state == QueueState::Processing)
            .map(|queued| queued.token)
            .collect()
    }

    fn committed(&self, commit: ObjectId) -> BatchCommitOutcome {
        BatchCommitOutcome::Committed {
            commit,
            successful: self.tokens(),
            failures: Vec::new(),
        }
    }

    fn transact(&mut self, publication: Publication, batch: BatchId) -> ProcessorReply {
        match (publication, self.journal) {
            (Publication::Recover, Some((_, Journal::Committed(commit)))) => {
                ProcessorReply::PublishAsked { commit }
            }
            (Publication::Recover, _) => {
                ProcessorReply::Ended(Err(GitTransactionError::JournalMismatch))
            }
            (Publication::Process, _) if self.missing_document => {
                self.journal = Some((batch, Journal::NoChanges));
                let failures = self
                    .tokens()
                    .into_iter()
                    .map(|token| RequestFailure {
                        token,
                        error_code: ErrorCode::DocumentNotFound,
                    })
                    .collect();
                ProcessorReply::Ended(Ok(BatchCommitOutcome::NoChanges { failures }))
            }
            (Publication::Process, _) => {
                self.journal = Some((batch, Journal::Preparing));
                ProcessorReply::BuildAsked
            }
        }
    }

    fn answer(&mut self, batch: BatchId, accepted: bool) -> ProcessorReply {
        let refused = Err(GitTransactionError::TrialBuildFailed);
        match self.journal {
            Some((_, Journal::Preparing)) if !accepted => ProcessorReply::Ended(refused),
            Some((_, Journal::Preparing)) if self.build_mutates => {
                ProcessorReply::Ended(Err(GitTransactionError::TrialBuildMutatedWorktree))
            }
            Some((_, Journal::Preparing)) => {
                self.next += 1;
                let commit = object(self.next);
                self.journal = Some((batch, Journal::Committed(commit)));
                ProcessorReply::PublishAsked { commit }
            }
            Some((_, Journal::Committed(commit))) if accepted && !self.publication_interrupted => {
                self.official = commit;
                self.log.push("advance");
                ProcessorReply::Ended(Ok(self.committed(commit)))
            }
            _ => ProcessorReply::Ended(refused),
        }
    }

    fn process(
        &mut self,
        publication: Publication,
        batch: BatchId,
    ) -> Result<BatchCommitOutcome, BatchProcessorError> {
        let (mut processor, mut action) = BatchProcessor::begin(publication, false);
        for _ in 0..100 {
            let reply = match action {
                ProcessorAction::Transact => self.transact(publication, batch),
                ProcessorAction::Answer(accepted) => self.answer(batch, accepted),
                ProcessorAction::Build => {
                    if self.staging {
                        ProcessorReply::Failed(BatchProcessorError::Release(
                            "staging exists".to_owned(),
                        ))
                    } else if self.build_fails {
                        ProcessorReply::Failed(BatchProcessorError::Quartz("exit 1".to_owned()))
                    } else {
                        self.staging = true;
                        ProcessorReply::Done
                    }
                }
                ProcessorAction::Prepare { commit } => {
                    assert!(self.staging);
                    self.staging = false;
                    self.prepared = Some(commit);
                    self.log.push("prepare");
                    ProcessorReply::Done
                }
                ProcessorAction::ResumePrepare { commit } => {
                    if self.prepared == Some(commit) {
                        ProcessorReply::Done
                    } else {
                        ProcessorReply::NothingToResume("no prepared release".to_owned())
                    }
                }
                ProcessorAction::DiscardBuild => {
                    self.staging = false;
                    ProcessorReply::Done
                }
                ProcessorAction::AbortPreparing => {
                    self.journal = None;
                    ProcessorReply::Done
                }
                ProcessorAction::FindPrepared { commit } => {
                    ProcessorReply::Found(self.prepared == Some(commit))
                }
                ProcessorAction::ReadActive => {
                    ProcessorReply::Commit(self.active.map(|commit| commit.text()))
                }
                ProcessorAction::Activate => {
                    self.active = self.prepared.take();
                    self.log.push("activate");
                    ProcessorReply::Done
                }
                ProcessorAction::Reconcile { successful, failures } => {
                    for token in successful {
                        self.settle(token, QueueState::Completed);
                    }
                    for failure in failures {
                        self.settle(failure.token(), QueueState::Failed);
                    }
                    self.log.push("reconcile");
                    ProcessorReply::Done
                }
                ProcessorAction::Finalize { released } => {
                    assert!(!released || self.active == Some(self.official));
                    self.journal = None;
                    self.log.push("finalize");
                    ProcessorReply::Done
                }
                ProcessorAction::Finish(result) => return result,
                ProcessorAction::LookupIndex
                | ProcessorAction::OpenSnapshot
                | ProcessorAction::PublishIndex => unreachable!(),
            };
            let (next, following) = processor.step(reply);
            processor = next;
            action = following;
        }
        panic!("a publication must end")
    }

    fn transaction(&self) -> Option<RepositoryTransaction> {
        self.journal.map(|(batch_id, journal)| match journal {
            Journal::Preparing => {
                RepositoryTransaction::Preparing { batch_id, claim_failures: 0 }
            }
            _ => RepositoryTransaction::Recoverable { batch_id, claim_failures: 0 },
        })
    }

    fn start(
        &mut self,
        limits: WorkerRunLimits,
    ) -> Result<(WorkerRuntime, StartupOutcome), WorkerRunError> {
        self.scanned = 0;
        let (mut startup, mut action) = Startup::begin(limits, false);
        for _ in 0..200 {
            let reply = match action {
                StartupAction::OpenSession => StartupReply::Done,
                StartupAction::Summarize | StartupAction::Discover => {
                    StartupReply::Transaction(self.transaction())
                }
                StartupAction::Scan { entries } => {
                    let all: Vec<ProcessingClaim> = self
                        .queue
                        .iter()
                        .filter(|queued| queued.state == QueueState::Processing)
                        .map(|queued| ProcessingClaim {
                            token: queued.token,
                            sequence: Some(queued.sequence),
                        })
                        .collect();
                    let until = all.len().min(self.scanned + entries);
                    let claims = all[self.scanned..until].to_vec();
                    self.scanned = until;
                    StartupReply::Claims { claims, complete: until == all.len() }
                }
                StartupAction::PollStop => StartupReply::Stop(false),
                StartupAction::Requeue { token } => {
                    self.settle(token, QueueState::Pending);
                    StartupReply::Done
                }
                StartupAction::Process { batch_id, .. } => {
                    match self.process(Publication::Process, batch_id) {
                        Ok(outcome) => StartupReply::Outcome(outcome),
                        Err(error) => StartupReply::ProcessorFailed(error),
                    }
                }
                StartupAction::Recover { batch_id } => {
                    match self.process(Publication::Recover, batch_id) {
                        Ok(outcome) => StartupReply::Outcome(outcome),
                        Err(error) => StartupReply::ProcessorFailed(error),
                    }
                }
                StartupAction::StartReplication => unreachable!(),
                StartupAction::Finish(Ok(InterruptibleStart::Started(outcome))) => {
                    return Ok((WorkerRuntime::new(limits, false), outcome));
                }
                StartupAction::Finish(Ok(InterruptibleStart::Stopped { .. })) => unreachable!(),
                StartupAction::Finish(Err(error)) => return Err(error),
            };
            let (next, following) = startup.step(reply);
            startup = next;
            action = following;
        }
        panic!("a startup must end")
    }

    fn started(&mut self, limits: WorkerRunLimits) -> (WorkerRuntime, StartupOutcome) {
        match self.start(limits) {
            Ok(started) => started,
            Err(error) => panic!("runtime must start: {}", error.message()),
        }
    }

    fn scan(&mut self, entries: usize) -> CycleReply {
        let (cursor, bound) = match self.observation {
            Some(observation) => observation,
            None => (0, self.queue.len() as u64),
        };
        let observed: Vec<&Queued> = self
            .queue
            .iter()
            .filter(|queued| queued.state == QueueState::Pending && queued.sequence <= bound)
            .collect();
        let until = observed.len().min(cursor + entries);
        if until < observed.len() {
            self.observation = Some((until, bound));
            return CycleReply::Scanning {
                scanned_entries: until - cursor,
                observed_requests: until,
            };
        }
        let times: Vec<Timestamp> =
            observed.iter().filter(|queued| queued.valid).map(|queued| queued.accepted_at).collect();
        let snapshot = PendingSnapshot {
            requests: observed.len(),
            has_invalid_acceptance: observed.iter().any(|queued| !queued.valid),
            oldest_accepted_at: times.first().copied(),
            newest_accepted_at: times.last().copied(),
            maximum_sequence: bound,
        };
        self.observation = None;
        CycleReply::Snapshot(snapshot)
    }

    fn claim_pending(&mut self, batch: BatchId, bound: Option<u64>, most: usize) -> CycleReply {
        let mut claims = Vec::new();
        let mut failed_requests = 0;
        for queued in &mut self.queue {
            let observed = bound.map_or(true, |bound| queued.sequence <= bound);
            if queued.state != QueueState::Pending || !observed || claims.len() == most {
                continue;
            }
            if !queued.valid {
                queued.state = QueueState::Failed;
                failed_requests += 1;
                continue;
            }
            queued.state = QueueState::Processing;
            queued.token.batch_id = batch;
            queued.token.attempt += 1;
            claims.push(queued.token);
        }
        CycleReply::Claims { claims, failed_requests }
    }

    fn drive(
        &mut self,
        begun: (WorkerRuntime, CycleAction),
        stop_at: usize,
    ) -> (WorkerRuntime, Result<CycleOutcome, WorkerRunError>) {
        let (mut runtime, mut action) = begun;
        let mut polls = 0;
        for _ in 0..100 {
            let reply = match action {
                CycleAction::PollStop => {
                    polls += 1;
                    CycleReply::Stop(polls == stop_at)
                }
                CycleAction::ScanPending { entries } => self.scan(entries),
                CycleAction::DiscardObservation => {
                    self.observation = None;
                    CycleReply::Done
                }
                CycleAction::Claim { claim, requests, .. } => {
                    self.claim_pending(claim.batch_id, claim.maximum_sequence, requests)
                }
                CycleAction::Process { batch_id, claims, .. } => {
                    assert_eq!(claims, self.tokens());
                    match self.process(Publication::Process, batch_id) {
                        Ok(outcome) => CycleReply::Outcome(outcome),
                        Err(error) => CycleReply::ProcessorFailed(error),
                    }
                }
                CycleAction::WakeReplication => CycleReply::Done,
                CycleAction::Finish(result) => return (runtime, result),
            };
            let (next, following) = runtime.step(reply);
            runtime = next;
            action = following;
        }
        panic!("a cycle must end")
    }

    fn run_once(
        &mut self,
        runtime: WorkerRuntime,
    ) -> (WorkerRuntime, Result<CycleOutcome, WorkerRunError>) {
        let begun = runtime.run_once(BatchId::generate());
        self.drive(begun, 0)
    }

    fn poll_once(
        &mut self,
        runtime: WorkerRuntime,
        now: Timestamp,
    ) -> (WorkerRuntime, Result<CycleOutcome, WorkerRunError>) {
        let settings =
            PollSettings { schedule: BatchSchedule::default(), now, batch_id: batch_id() };
        self.drive(runtime.poll_once(settings), 0)
    }
}

#[test]
fn publishes_release_before_completing_the_queue_and_journal() {
    let mut deployment = Deployment::new();
    deployment.enqueue(REQUEST_ID);
    deployment.claim(REQUEST_ID, batch_id());
    let commit = match deployment.process(Publication::Process, batch_id()) {
        Ok(BatchCommitOutcome::Committed { commit, .. }) => commit,
        Ok(_) => panic!("create request must commit"),
        Err(error) => panic!("batch must publish: {}", error.message()),
    };
    assert_eq!(deployment.active, Some(commit));
    assert_eq!(deployment.state(REQUEST_ID), QueueState::Completed);
    assert_eq!(deployment.official, commit);
    assert!(deployment.journal.is_none());
    assert_eq!(
        deployment.log,
        vec!["prepare", "advance", "activate", "reconcile", "finalize"]
    );
}

fn interrupted() -> Deployment {
    let mut deployment = Deployment::new();
    deployment.enqueue(REQUEST_ID);
    deployment.claim(REQUEST_ID, batch_id());
    deployment.publication_interrupted = true;
    assert!(deployment.process(Publication::Process, batch_id()).is_err());
    deployment.publication_interrupted = false;
    assert!(matches!(deployment.journal, Some((_, Journal::Committed(_)))));
    deployment
}

#[test]
fn recovery_prepares_release_before_advancing_an_interrupted_commit() {
    let mut deployment = interrupted();
    assert_eq!(deployment.state(REQUEST_ID), QueueState::Processing);
    let commit = match deployment.process(Publication::Recover, batch_id()) {
        Ok(BatchCommitOutcome::Committed { commit, .. }) => commit,
        Ok(_) => panic!("recovered create request must retain its commit"),
        Err(error) => panic!("interrupted batch must recover: {}", error.message()),
    };
    assert_eq!(deployment.active, Some(commit));
    assert_eq!(deployment.state(REQUEST_ID), QueueState::Completed);
}

#[test]
fn recovery_rebuilds_a_lost_release() {
    let mut deployment = interrupted();
    deployment.prepared = None;
    deployment.log.clear();
    let Ok(BatchCommitOutcome::Committed { commit, .. }) =
        deployment.process(Publication::Recover, batch_id())
    else {
        panic!("a lost release must be built again");
    };
    assert_eq!(deployment.active, Some(commit));
    assert_eq!(
        deployment.log,
        vec!["prepare", "advance", "activate", "reconcile", "finalize"]
    );
}

#[test]
fn trial_failure_cleans_transaction_artifacts_for_an_exact_retry() {
    let mut deployment = Deployment::new();
    deployment.enqueue(REQUEST_ID);
    deployment.claim(REQUEST_ID, batch_id());
    deployment.staging = true;
    assert!(deployment.process(Publication::Process, batch_id()).is_err());
    assert!(deployment.journal.is_none());
    assert!(matches!(
        deployment.process(Publication::Process, batch_id()),
        Ok(BatchCommitOutcome::Committed { .. })
    ));
}

#[test]
fn repository_failure_after_trial_discards_unconsumed_build() {
    let mut deployment = Deployment::new();
    deployment.enqueue(REQUEST_ID);
    deployment.claim(REQUEST_ID, batch_id());
    deployment.build_mutates = true;
    assert!(matches!(
        deployment.process(Publication::Process, batch_id()),
        Err(BatchProcessorError::Repository(
            GitTransactionError::TrialBuildMutatedWorktree
        ))
    ));
    assert!(!deployment.staging);
    assert!(deployment.journal.is_none());
}

#[test]
fn all_failed_batch_reconciles_without_creating_a_release() {
    let mut deployment = Deployment::new();
    deployment.enqueue(REQUEST_ID);
    deployment.claim(REQUEST_ID, batch_id());
    deployment.missing_document = true;
    assert!(matches!(
        deployment.process(Publication::Process, batch_id()),
        Ok(BatchCommitOutcome::NoChanges { failures })
            if failures.len() == 1 && failures[0].error_code() == ErrorCode::DocumentNotFound
    ));
    assert!(deployment.active.is_none());
    assert_eq!(deployment.state(REQUEST_ID), QueueState::Failed);
    assert!(deployment.journal.is_none());
}

#[test]
fn runtime_starts_clean_and_reports_an_empty_snapshot() {
    let mut deployment = Deployment::new();
    let (runtime, startup) = deployment.started(WorkerRunLimits::default());
    assert!(matches!(startup, StartupOutcome::Clean));
    let (_, outcome) = deployment.run_once(runtime);
    assert!(matches!(outcome, Ok(CycleOutcome::Run(WorkerRunOutcome::Idle))));
}

#[test]
fn runtime_requeues_pretransaction_claims_then_processes_them() {
    let mut deployment = Deployment::new();
    deployment.enqueue(REQUEST_ID);
    deployment.claim(REQUEST_ID, batch_id());
    let (runtime, startup) = deployment.started(WorkerRunLimits::default());
    assert!(matches!(
        startup,
        StartupOutcome::Requeued { batch_id: requeued, requests: 1 } if requeued == batch_id()
    ));
    assert_eq!(deployment.state(REQUEST_ID), QueueState::Pending);
    let (_, outcome) = deployment.run_once(runtime);
    assert!(matches!(
        outcome,
        Ok(CycleOutcome::Run(WorkerRunOutcome::Processed {
            outcome: BatchCommitOutcome::Committed { .. },
            ..
        }))
    ));
}

#[test]
fn runtime_resumes_a_terminal_repository_transaction() {
    let mut deployment = interrupted();
    let (_, startup) = deployment.started(WorkerRunLimits::default());
    assert!(matches!(
        startup,
        StartupOutcome::Resumed {
            batch_id: resumed,
            outcome: BatchCommitOutcome::Committed { .. },
            ..
        } if resumed == batch_id()
    ));
    assert_eq!(deployment.state(REQUEST_ID), QueueState::Completed);
}

#[test]
fn runtime_replays_a_preparing_repository_transaction() {
    let mut deployment = Deployment::new();
    deployment.enqueue(REQUEST_ID);
    deployment.claim(REQUEST_ID, batch_id());
    deployment.journal = Some((batch_id(), Journal::Preparing));
    let (_, startup) = deployment.started(WorkerRunLimits::default());
    assert!(matches!(
        startup,
        StartupOutcome::Resumed {
            batch_id: resumed,
            outcome: BatchCommitOutcome::Committed { .. },
            ..
        } if resumed == batch_id()
    ));
    assert_eq!(deployment.state(REQUEST_ID), QueueState::Completed);
}

#[test]
fn runtime_requires_restart_after_a_failed_cycle() {
    let mut deployment = Deployment::new();
    deployment.build_fails = true;
    deployment.enqueue(REQUEST_ID);
    let (runtime, startup) = deployment.started(WorkerRunLimits::default());
    assert!(matches!(startup, StartupOutcome::Clean));
    let (runtime, outcome) = deployment.run_once(runtime);
    assert!(outcome.is_err());
    let (_, outcome) = deployment.run_once(runtime);
    assert!(matches!(outcome, Err(WorkerRunError::RecoveryRequired)));
}

#[test]
fn recovery_limit_cannot_be_smaller_than_a_new_batch() {
    let limits = WorkerRunLimits::new(8, 100, 50);
    assert_eq!(limits.maximum_scan_entries(), 8);
    assert_eq!(limits.maximum_requests(), 100);
    assert_eq!(limits.maximum_recovery_requests(), 100);
}

#[test]
fn separate_recovery_limit_allows_an_older_larger_batch() {
    let mut deployment = Deployment::new();
    deployment.enqueue(REQUEST_ID);
    deployment.claim(REQUEST_ID, batch_id());
    deployment.enqueue(SECOND_REQUEST_ID);
    deployment.claim(SECOND_REQUEST_ID, batch_id());
    assert!(matches!(
        deployment.start(WorkerRunLimits::new(16, 1, 1)),
        Err(WorkerRunError::TooManyProcessingClaims { maximum: 1 })
    ));
    let (_, startup) = deployment.started(WorkerRunLimits::new(16, 1, 2));
    assert!(matches!(startup, StartupOutcome::Requeued { requests: 2, .. }));
}

#[test]
fn scheduler_waits_for_debounce_before_processing() {
    let mut deployment = Deployment::new();
    deployment.enqueue(REQUEST_ID);
    let (runtime, startup) = deployment.started(WorkerRunLimits::default());
    assert!(matches!(startup, StartupOutcome::Clean));
    let (runtime, outcome) = deployment.poll_once(runtime, created_at());
    assert!(matches!(
        outcome,
        Ok(CycleOutcome::Poll(WorkerPollOutcome::Waiting { ready_at }))
            if ready_at == later(created_at(), 30)
    ));
    let (_, outcome) = deployment.poll_once(runtime, later(created_at(), 60));
    assert!(matches!(
        outcome,
        Ok(CycleOutcome::Poll(WorkerPollOutcome::Processed {
            outcome: BatchCommitOutcome::Committed { .. },
            ..
        }))
    ));
}

#[test]
fn scheduler_leaves_arrivals_after_observation_for_the_next_batch() {
    let mut deployment = Deployment::new();
    deployment.enqueue(REQUEST_ID);
    deployment.enqueue(SECOND_REQUEST_ID);
    let (runtime, startup) = deployment.started(WorkerRunLimits::new(1, 100, 100));
    assert!(matches!(startup, StartupOutcome::Clean));
    let ready_time = later(created_at(), 600);
    let (mut runtime, outcome) = deployment.poll_once(runtime, ready_time);
    assert!(matches!(
        outcome,
        Ok(CycleOutcome::Poll(WorkerPollOutcome::Scanning { scanned_entries: 1, .. }))
    ));

    deployment.enqueue(THIRD_REQUEST_ID);
    let outcome = loop {
        let (next, outcome) = deployment.poll_once(runtime, ready_time);
        runtime = next;
        match outcome {
            Ok(CycleOutcome::Poll(WorkerPollOutcome::Scanning { .. })) => {}
            Ok(outcome) => break outcome,
            Err(error) => panic!("fixed snapshot must process: {}", error.message()),
        }
    };
    assert!(matches!(
        outcome,
        CycleOutcome::Poll(WorkerPollOutcome::Processed {
            outcome: BatchCommitOutcome::Committed { .. },
            ..
        })
    ));
    assert_eq!(deployment.state(THIRD_REQUEST_ID), QueueState::Pending);
    assert_eq!(deployment.state(SECOND_REQUEST_ID), QueueState::Completed);
}

#[test]
fn scheduler_reports_invalid_only_snapshots_without_a_commit() {
    let mut deployment = Deployment::new();
    deployment.enqueue(REQUEST_ID);
    deployment.queue[0].valid = false;
    let (runtime, startup) = deployment.started(WorkerRunLimits::default());
    assert!(matches!(startup, StartupOutcome::Clean));
    let (_, outcome) = deployment.poll_once(runtime, created_at());
    assert!(matches!(
        outcome,
        Ok(CycleOutcome::Poll(WorkerPollOutcome::ClosedWithoutCommit {
            reason: BatchCloseReason::InvalidAcceptance,
            failed_requests: 1,
        }))
    ));
    assert_eq!(deployment.state(REQUEST_ID), QueueState::Failed);
}

#[test]
fn a_stopped_poll_needs_startup_recovery() {
    let mut deployment = Deployment::new();
    deployment.enqueue(REQUEST_ID);
    let (runtime, _) = deployment.started(WorkerRunLimits::default());
    let settings = PollSettings {
        schedule: BatchSchedule::default(),
        now: later(created_at(), 60),
        batch_id: batch_id(),
    };
    let (runtime, outcome) = deployment.drive(runtime.poll_once(settings), 3);
    assert!(matches!(
        outcome,
        Ok(CycleOutcome::Poll(WorkerPollOutcome::Stopped { failed_requests: 0 }))
    ));
    assert_eq!(deployment.state(REQUEST_ID), QueueState::Processing);
    let (_, outcome) = deployment.run_once(runtime);
    assert!(matches!(outcome, Err(WorkerRunError::RecoveryRequired)));
    let (_, startup) = deployment.started(WorkerRunLimits::default());
    assert!(matches!(startup, StartupOutcome::Requeued { requests: 1, .. }));
}

#[test]
fn interrupted_work_of_two_batches_is_refused() {
    let other = BatchId { value: number(BATCH_ID) + 1 };
    let mut deployment = Deployment::new();
    deployment.enqueue(REQUEST_ID);
    deployment.claim(REQUEST_ID, batch_id());
    deployment.journal = Some((other, Journal::Preparing));
    assert!(matches!(
        deployment.start(WorkerRunLimits::default()),
        Err(WorkerRunError::TransactionBatchMismatch { processing, repository, .. })
            if processing == batch_id() && repository == other
    ));

    deployment.enqueue(SECOND_REQUEST_ID);
    deployment.claim(SECOND_REQUEST_ID, other);
    let Err(error) = deployment.start(WorkerRunLimits::default()) else {
        panic!("claims of two batches must be refused");
    };
    assert!(matches!(
        error,
        WorkerRunError::MultipleProcessingBatches { expected, found }
            if expected == batch_id() && found == other
    ));

    let mut deployment = Deployment::new();
    deployment.journal = Some((other, Journal::Preparing));
    assert!(matches!(
        deployment.start(WorkerRunLimits::default()),
        Err(WorkerRunError::MissingProcessingClaims { batch_id: missing, .. }) if missing == other
    ));
}

fn processing(id: &str, sequence: Option<u64>) -> ProcessingClaim {
    ProcessingClaim {
        token: ClaimToken { request_id: request(id), batch_id: batch_id(), attempt: 1 },
        sequence,
    }
}

#[test]
fn recovered_claims_keep_their_acceptance_order() {
    let claims = vec![
        processing(THIRD_REQUEST_ID, Some(3)),
        processing(REQUEST_ID, Some(1)),
        processing(SECOND_REQUEST_ID, Some(2)),
    ];
    let sorted: Vec<Option<u64>> =
        sort_claims(&claims).iter().map(|claim| claim.sequence).collect();
    assert_eq!(sorted, vec![Some(1), Some(2), Some(3)]);
    assert!(matches!(single_processing_batch(&claims), Ok(Some(batch)) if batch == batch_id()));
    assert!(matches!(single_processing_batch(&Vec::new()), Ok(None)));
    let limits = WorkerRunLimits::new(8, 4, 10);
    assert_eq!(recovery_scan_entries(limits, 0), 8);
    assert_eq!(recovery_scan_entries(limits, 9), 2);
}

#[test]
fn stopped_startups_keep_their_count() {
    let started: InterruptibleStart<u8> = InterruptibleStart::Started(7);
    assert!(matches!(
        started.map(|value| value + 1),
        InterruptibleStart::Started(8)
    ));
    let stopped: InterruptibleStart<u8> = InterruptibleStart::Stopped { failed_requests: 2 };
    assert!(matches!(
        stopped.map(|value| value + 1),
        InterruptibleStart::Stopped { failed_requests: 2 }
    ));
}

#[test]
fn replication_threads_report_the_first_of_repeated_errors() {
    let failed = || Err(RemoteReplicationError::InvalidState);
    assert_eq!(replication_report(&failed(), false), (ReplicationReport::Send, true));
    assert_eq!(replication_report(&failed(), true), (ReplicationReport::Quiet, true));
    let pushed = Ok(RemoteReplicationOutcome::Pushed { commit: object(1) });
    assert_eq!(replication_report(&pushed, true), (ReplicationReport::Send, false));
    let current = Ok(RemoteReplicationOutcome::UpToDate { commit: object(1) });
    assert_eq!(replication_report(&current, true), (ReplicationReport::Quiet, false));
    let cancelled = Ok(RemoteReplicationOutcome::Cancelled);
    assert_eq!(replication_report(&cancelled, false), (ReplicationReport::Stop, false));

    let deferred = |seconds: i128| {
        Ok(RemoteReplicationOutcome::Deferred {
            commit: object(1),
            consecutive_failures: 1,
            retry_at: timestamp(seconds),
        })
    };
    assert_eq!(replication_wait(&deferred(110), &timestamp(100)), 10_000_000_000);
    assert_eq!(replication_wait(&deferred(90), &timestamp(100)), 0);
    assert_eq!(
        replication_wait(&deferred(900), &timestamp(100)),
        REPLICATION_VERIFICATION_INTERVAL
    );
    assert_eq!(
        replication_wait(&pushed, &timestamp(100)),
        REPLICATION_VERIFICATION_INTERVAL
    );
}

fn wire() -> WireWorkerConfig {
    let root = |name: &str| format!("/srv/fictional-knowledge/{name}");
    WireWorkerConfig {
        schema_version: 1,
        storage: WireStorage {
            queue_root: root("queue"),
            repository_root: root("repository"),
            content_root: root("content"),
            work_root: root("work"),
            release_root: root("releases"),
        },
        repository: WireRepository {
            official_branch: "main".to_owned(),
            author_name: "Fictional Knowledge Worker".to_owned(),
            author_email: "worker@example.invalid".to_owned(),
            replication: None,
        },
        quartz: WireQuartz {
            program: root("quartz-integration/quartz.sh"),
            integration_root: root("quartz-integration"),
            timeout_seconds: 5,
        },
        batch: WireBatch {
            debounce_seconds: 30,
            maximum_age_seconds: 300,
            maximum_scan_entries: 1024,
            maximum_requests: 100,
            maximum_recovery_requests: 10_000,
        },
    }
}

fn decode(wire: WireWorkerConfig) -> Result<WorkerSettings, WorkerConfigError> {
    let timeout_fits = wire.quartz.timeout_seconds < u64::MAX;
    let clock = ConfigClock { now: created_at(), timeout_fits, replication_fits: true };
    WorkerSettings::try_from_wire(wire, clock)
}

#[test]
fn decodes_strict_versioned_operational_settings() {
    let settings = match decode(wire()) {
        Ok(settings) => settings,
        Err(error) => panic!("fixture settings must decode: {}", error.message()),
    };
    assert_eq!(settings.schedule().debounce(), 30 * SECOND);
    assert_eq!(settings.schedule().maximum_age(), 300 * SECOND);
    assert_eq!(settings.limits().maximum_scan_entries(), 1024);
    assert_eq!(settings.limits().maximum_requests(), 100);
    assert_eq!(settings.limits().maximum_recovery_requests(), 10_000);
    assert_eq!(settings.queue_root(), "/srv/fictional-knowledge/queue");
    assert_eq!(settings.repository_root(), "/srv/fictional-knowledge/repository");
    assert_eq!(settings.content_root(), "/srv/fictional-knowledge/content");
    assert_eq!(settings.work_root(), "/srv/fictional-knowledge/work");
    assert_eq!(settings.release_root(), "/srv/fictional-knowledge/releases");
    assert_eq!(settings.official_branch(), "main");
    assert_eq!(settings.identity().name(), "Fictional Knowledge Worker");
    assert_eq!(settings.identity().email(), "worker@example.invalid");
    assert_eq!(settings.quartz_timeout(), 5);
    assert!(settings.replication().is_none());
}

#[test]
fn rejects_unsupported_versions_and_oversized_input() {
    let mut unsupported = wire();
    unsupported.schema_version = 2;
    assert!(matches!(
        decode(unsupported),
        Err(WorkerConfigError::UnsupportedSchemaVersion { found: 2 })
    ));
    assert!(matches!(
        check_config_length(MAXIMUM_WORKER_CONFIG_BYTES + 1),
        Err(WorkerConfigError::FileTooLarge { .. })
    ));
    assert!(check_config_length(MAXIMUM_WORKER_CONFIG_BYTES).is_ok());
}

fn invalid_value(change: impl Fn(&mut WireWorkerConfig)) -> &'static str {
    let mut wire = wire();
    change(&mut wire);
    match decode(wire) {
        Err(WorkerConfigError::InvalidValue { field }) => field,
        Err(error) => panic!("only a value may be refused: {}", error.message()),
        Ok(_) => panic!("the value must be refused"),
    }
}

#[test]
fn rejects_unsafe_paths_and_invalid_operational_bounds() {
    let mut relative = wire();
    relative.storage.queue_root = "relative/fictional-queue".to_owned();
    assert!(matches!(
        decode(relative),
        Err(WorkerConfigError::InvalidPath { field: "storage.queue_root" })
    ));

    for unnormalized in ["/srv/./queue", "/srv/queue/.", "/srv/work/../queue", "/"] {
        let mut refused = wire();
        refused.storage.queue_root = unnormalized.to_owned();
        assert!(matches!(
            decode(refused),
            Err(WorkerConfigError::InvalidPath { field: "storage.queue_root" })
        ));
    }
    let mut program = wire();
    program.quartz.program = "/opt/./quartz".to_owned();
    assert!(matches!(
        decode(program),
        Err(WorkerConfigError::InvalidPath { field: "quartz.program" })
    ));

    let mut overlapping = wire();
    overlapping.storage.release_root = "/srv/fictional-knowledge/work/releases".to_owned();
    assert!(matches!(
        decode(overlapping),
        Err(WorkerConfigError::OverlappingPaths { .. })
    ));

    let mut mutable_quartz = wire();
    mutable_quartz.quartz.integration_root =
        "/srv/fictional-knowledge/content/quartz-integration".to_owned();
    mutable_quartz.quartz.program =
        "/srv/fictional-knowledge/content/quartz-integration/quartz.sh".to_owned();
    assert!(matches!(
        decode(mutable_quartz),
        Err(WorkerConfigError::OverlappingPaths { .. })
    ));

    assert_eq!(
        invalid_value(|wire| wire.batch.maximum_requests = 0),
        "batch.maximum_requests"
    );
    assert_eq!(
        invalid_value(|wire| wire.batch.maximum_recovery_requests = 99),
        "batch.maximum_recovery_requests"
    );
    assert_eq!(
        invalid_value(|wire| wire.quartz.timeout_seconds = 18_446_744_073_709_551_615),
        "quartz.timeout_seconds"
    );
    assert_eq!(
        invalid_value(|wire| wire.batch.debounce_seconds = 0),
        "batch.debounce_seconds"
    );
    assert_eq!(
        invalid_value(|wire| wire.batch.maximum_age_seconds = u64::MAX),
        "batch.maximum_age_seconds"
    );
    assert_eq!(
        invalid_value(|wire| wire.batch.maximum_scan_entries = 0),
        "batch.maximum_scan_entries"
    );
    assert_eq!(
        invalid_value(|wire| wire.repository.official_branch.clear()),
        "repository.official_branch"
    );
    assert_eq!(
        invalid_value(|wire| wire.repository.author_name.push('\n')),
        "repository author identity"
    );
}

fn wire_replication() -> WireReplication {
    WireReplication {
        remote: "fictional-backup".to_owned(),
        branch: "main".to_owned(),
        timeout_seconds: 5,
        initial_backoff_seconds: 10,
        maximum_backoff_seconds: 40,
    }
}

#[test]
fn configured_replication_becomes_a_policy() {
    let mut configured = wire();
    configured.repository.replication = Some(wire_replication());
    let Ok(settings) = decode(configured) else {
        panic!("fixture settings must decode");
    };
    let Some(policy) = settings.replication() else {
        panic!("replication must be configured");
    };
    assert_eq!(policy.remote(), "fictional-backup");
    assert_eq!(policy.branch(), "main");
    assert_eq!(policy.timeout(), 5_000_000_000);
    assert_eq!(
        invalid_value(|wire| {
            let mut replication = wire_replication();
            replication.maximum_backoff_seconds = 9;
            wire.repository.replication = Some(replication);
        }),
        "repository.replication"
    );
}

/// Resolves the configured paths where only some directories exist.
fn resolve(wire: &WireWorkerConfig, known: &[(&str, &str)]) -> Result<Vec<String>, WorkerOpenError> {
    let paths: Vec<ContentPath> = [
        &wire.storage.queue_root,
        &wire.storage.repository_root,
        &wire.storage.content_root,
        &wire.storage.work_root,
        &wire.storage.release_root,
        &wire.quartz.program,
        &wire.quartz.integration_root,
    ]
    .iter()
    .map(|text| host_path(text))
    .collect();
    let mut resolutions: Vec<Vec<Resolution>> = paths.iter().map(|_| Vec::new()).collect();
    loop {
        match validate_resolved_topology(&paths, &resolutions) {
            Ok(resolved) => return Ok(resolved.iter().map(ContentPath::text).collect()),
            Err(TopologyHalt::Failed(error)) => return Err(error),
            Err(TopologyHalt::Needs { field, missing }) => {
                let mut path = paths[field].clone();
                for _ in 0..missing {
                    path = match path.parent() {
                        Some(parent) => parent,
                        None => panic!("the root exists"),
                    };
                }
                let text = format!("/{}", path.text());
                let found = known.iter().find(|(name, _)| *name == text);
                resolutions[field].push(match found {
                    Some((_, target)) => Resolution::Resolved(host_path(target)),
                    None if text == "/" => Resolution::Resolved(ContentPath::root()),
                    None => Resolution::Missing("not found".to_owned()),
                });
            }
        }
    }
}

#[test]
fn rejects_resolved_storage_aliases_before_initialization() {
    let mut aliased = wire();
    aliased.storage.queue_root = "/srv/fictional-knowledge/aliased-storage/queue".to_owned();
    assert!(decode(wire()).is_ok());
    let known = [(
        "/srv/fictional-knowledge/aliased-storage",
        "/srv/fictional-knowledge/content",
    )];
    assert!(matches!(
        resolve(&aliased, &known),
        Err(WorkerOpenError::OverlappingPaths {
            first: "storage.queue_root",
            second: "storage.content_root",
        })
    ));
}

#[test]
fn initialization_uses_the_destination_resolved_during_preflight() {
    let mut aliased = wire();
    aliased.storage.queue_root = "/srv/fictional-knowledge/queue-alias/queue".to_owned();
    let known = [(
        "/srv/fictional-knowledge/queue-alias",
        "/srv/fictional-knowledge/safe-storage",
    )];
    let Ok(resolved) = resolve(&aliased, &known) else {
        panic!("resolved configuration must open");
    };
    assert_eq!(resolved[0], "srv/fictional-knowledge/safe-storage/queue");
    assert_eq!(resolved[2], "srv/fictional-knowledge/content");
}

fn opened(paths: &[&str]) -> OpenedTopology {
    let paths: Vec<ContentPath> = paths.iter().map(|text| host_path(text)).collect();
    OpenedTopology {
        repository: None,
        releases: None,
        queue: None,
        quartz: None,
        nesting: Nesting::of_paths(&paths),
    }
}

#[test]
fn opened_components_must_be_attested_and_separate() {
    let separate = ["/q", "/r", "/c", "/w", "/l", "/z/quartz.sh", "/z"];
    assert!(validate_opened_topology(&opened(&separate)).is_ok());
    let nested = ["/q", "/r", "/c", "/c/w", "/l", "/z/quartz.sh", "/z"];
    assert!(matches!(
        validate_opened_topology(&opened(&nested)),
        Err(WorkerOpenError::OverlappingPaths {
            first: "storage.content_root",
            second: "storage.work_root",
        })
    ));
    let trusted = ["/q", "/r", "/c", "/w", "/l", "/l/quartz.sh", "/z"];
    assert!(matches!(
        validate_opened_topology(&opened(&trusted)),
        Err(WorkerOpenError::OverlappingPaths {
            first: "storage.release_root",
            second: "quartz.program",
        })
    ));
    let mut replaced = opened(&separate);
    replaced.queue = Some("replaced".to_owned());
    let Err(error) = validate_opened_topology(&replaced) else {
        panic!("a replaced directory must be refused");
    };
    assert_eq!(error.message(), "could not attest queue storage: replaced");
}

fn idle_queue() -> QueueOverview {
    QueueOverview {
        pending: 0,
        processing: 0,
        completed: 0,
        failed: 0,
        oldest_pending_at: None,
        worker_active: false,
        snapshot_exact: false,
    }
}

#[test]
fn inspects_initialized_components_without_starting_the_worker() {
    let Ok(queue) = queue_status(&idle_queue()) else {
        panic!("queue must be readable");
    };
    let publication = publication_status(object(1).text(), None);
    let Ok(replication) = replication_status(None, None, &object(1).text()) else {
        panic!("replication must be readable");
    };
    let Ok(status) = operational_status(&created_at(), queue, publication, replication) else {
        panic!("operational status must be readable");
    };
    assert_eq!(status.queue().pending(), 0);
    assert_eq!(status.queue().processing(), 0);
    assert_eq!(status.queue().completed(), 0);
    assert_eq!(status.queue().failed(), 0);
    assert_eq!(status.queue().oldest_pending_at(), None);
    assert!(!status.queue().worker_active());
    assert!(!status.queue().snapshot_exact());
    assert!(status.publication().active_release().is_none());
    assert!(!status.publication().synchronized());
    assert!(matches!(status.replication(), ReplicationStatus::Disabled));
    assert_eq!(status.schema_version, 1);
    assert_eq!(status.observed_at, "2026-07-31T04:00:00Z");
    assert_eq!(CURRENT_OPERATIONAL_STATUS_VERSION, 1);
}

#[test]
fn operational_status_rejects_a_publication_changed_during_observation() {
    let first = || publication_status(object(1).text(), None);
    assert!(matches!(
        steady_publication(first(), &publication_status(object(2).text(), None)),
        Err(OperationalStatusError::PublicationChanged)
    ));
    let release = || ActiveReleaseStatus {
        release_id: "fictional".to_owned(),
        commit: object(1).text(),
    };
    assert!(matches!(
        steady_publication(first(), &publication_status(object(1).text(), Some(release()))),
        Err(OperationalStatusError::PublicationChanged)
    ));
    let released = publication_status(object(1).text(), Some(release()));
    assert!(released.synchronized());
    assert!(matches!(
        steady_publication(
            released,
            &publication_status(object(1).text(), Some(release()))
        ),
        Ok(publication) if publication.official_commit() == object(1).text()
    ));
}

#[test]
fn replication_lags_until_the_official_commit_is_confirmed() {
    let mut configured = wire();
    configured.repository.replication = Some(wire_replication());
    let Ok(settings) = decode(configured) else {
        panic!("fixture settings must decode");
    };
    let durable = |commit: Option<u64>, retry_at: Option<Timestamp>| {
        Some(DurableReplicationStatus {
            replicated_commit: commit.map(|commit| object(commit).text()),
            consecutive_failures: 1,
            retry_at,
        })
    };
    let official = object(1).text();
    assert!(matches!(
        replication_status(settings.replication(), None, &official),
        Ok(ReplicationStatus::NotAttempted { .. })
    ));
    assert!(matches!(
        replication_status(settings.replication(), durable(Some(1), None), &official),
        Ok(ReplicationStatus::Current { commit, .. }) if commit == official
    ));
    assert!(matches!(
        replication_status(
            settings.replication(),
            durable(Some(2), Some(created_at())),
            &official
        ),
        Ok(ReplicationStatus::Lagging { retry_at: Some(retry_at), consecutive_failures: 1, .. })
            if retry_at == "2026-07-31T04:00:00Z"
    ));
    let Some(early) = Timestamp::new(-62_200_000_000 * SECOND, 0) else {
        panic!("fixture timestamp must be held");
    };
    assert!(matches!(
        replication_status(settings.replication(), durable(None, Some(early)), &official),
        Err(OperationalStatusError::Timestamp(_))
    ));
}

#[test]
fn stored_replication_counts_under_its_own_policy_only() {
    let mut configured = wire();
    configured.repository.replication = Some(wire_replication());
    let Ok(settings) = decode(configured) else {
        panic!("fixture settings must decode");
    };
    let Some(policy) = settings.replication() else {
        panic!("fixture settings must have a policy");
    };
    let stored = |remote: &str, branch: &str| {
        Some(ReplicationState {
            schema_version: REPLICATION_STATE_VERSION,
            remote: remote.to_owned(),
            branch: branch.to_owned(),
            remote_fingerprint: Revision::from_bytes([7; 32]),
            replicated_commit: Some(object(2).text()),
            consecutive_failures: 3,
            retry_at: Some(created_at()),
        })
    };
    let Some(durable) = durable_replication(policy, stored(policy.remote(), policy.branch()))
    else {
        panic!("state of the configured remote must count");
    };
    assert_eq!(durable.replicated_commit, Some(object(2).text()));
    assert_eq!(durable.consecutive_failures, 3);
    assert_eq!(durable.retry_at, Some(created_at()));
    assert!(durable_replication(policy, stored("elsewhere", policy.branch())).is_none());
    assert!(durable_replication(policy, stored(policy.remote(), "elsewhere")).is_none());
    assert!(durable_replication(policy, None).is_none());
}

#[test]
fn rejected_requests_are_counted_in_failures() {
    let error = RecoveryError::Queue { source: "disk".to_owned(), failed_requests: 2 }
        .with_failed_requests(3);
    assert_eq!(error.failed_requests(), 2);
    let error = RecoveryError::TooManyProcessingClaims { maximum: 1 }.with_failed_requests(3);
    assert_eq!(error.failed_requests(), 3);
    assert!(matches!(
        error,
        WorkerRunError::StartupRecovery {
            source: RecoveryError::TooManyProcessingClaims { maximum: 1 },
            ..
        }
    ));
    assert_eq!(WorkerRunError::RecoveryRequired.failed_requests(), 0);
}

fn publish(
    publication: Publication,
    search: bool,
    replies: Vec<ProcessorReply>,
) -> (Vec<String>, ProcessorAction) {
    let (mut processor, mut action) = BatchProcessor::begin(publication, search);
    let mut asked = Vec::new();
    for reply in replies {
        let shown = format!("{action:?}");
        asked.push(shown.split([' ', '(']).next().unwrap_or_default().to_owned());
        (processor, action) = processor.step(reply);
    }
    (asked, action)
}

fn committed(value: u64) -> ProcessorReply {
    ProcessorReply::Ended(Ok(BatchCommitOutcome::Committed {
        commit: object(value),
        successful: Vec::new(),
        failures: Vec::new(),
    }))
}

fn publication_error(replies: Vec<ProcessorReply>) -> BatchProcessorError {
    match publish(Publication::Process, true, replies).1 {
        ProcessorAction::Finish(Err(error)) => error,
        other => panic!("publication must fail: {other:?}"),
    }
}

#[test]
fn search_indexes_are_published_for_the_official_commit_only() {
    let commit = || ProcessorReply::Commit(Some(object(1).text()));
    let (asked, action) = publish(
        Publication::Process,
        true,
        vec![committed(1), ProcessorReply::Commit(None), commit(), ProcessorReply::Done],
    );
    assert_eq!(asked, vec!["Transact", "LookupIndex", "OpenSnapshot", "PublishIndex"]);
    assert!(matches!(action, ProcessorAction::FindPrepared { commit } if commit == object(1)));
    let (asked, action) = publish(Publication::Process, true, vec![committed(1), commit()]);
    assert_eq!(asked, vec!["Transact", "LookupIndex"]);
    assert!(matches!(action, ProcessorAction::FindPrepared { .. }));

    assert!(matches!(
        publication_error(vec![
            committed(1),
            ProcessorReply::Commit(None),
            ProcessorReply::Commit(Some(object(2).text())),
        ]),
        BatchProcessorError::SearchSnapshotCommitMismatch { expected, actual }
            if expected == object(1).text() && actual == object(2).text()
    ));
    assert!(matches!(
        publication_error(vec![
            committed(1),
            ProcessorReply::Failed(BatchProcessorError::SearchIndex(SearchIndexStoreError::Busy)),
        ]),
        BatchProcessorError::SearchIndex(SearchIndexStoreError::Busy)
    ));
    assert!(matches!(
        publication_error(vec![
            committed(1),
            ProcessorReply::Commit(None),
            ProcessorReply::Failed(BatchProcessorError::CommittedRead(CommittedReadError::Busy)),
        ]),
        BatchProcessorError::CommittedRead(CommittedReadError::Busy)
    ));
}

#[test]
fn missing_builds_and_releases_are_named() {
    let commit = || ProcessorReply::Commit(Some(object(1).text()));
    let refused = || ProcessorReply::Ended(Err(GitTransactionError::PublicationIncomplete));
    let (asked, action) = publish(
        Publication::Process,
        false,
        vec![ProcessorReply::PublishAsked { commit: object(1) }, refused()],
    );
    assert_eq!(asked, vec!["Transact", "Answer"]);
    assert!(matches!(
        action,
        ProcessorAction::Finish(Err(BatchProcessorError::MissingBuildOutput))
    ));
    assert!(matches!(
        publication_error(vec![committed(1), commit(), ProcessorReply::Found(false)]),
        BatchProcessorError::MissingPreparedRelease
    ));
    assert!(matches!(
        publication_error(vec![
            committed(1),
            commit(),
            ProcessorReply::Found(true),
            ProcessorReply::Done,
            ProcessorReply::Failed(BatchProcessorError::Queue("full".to_owned())),
        ]),
        BatchProcessorError::Queue(reason) if reason == "full"
    ));
    assert_eq!(
        BatchProcessorError::Queue("full".to_owned()).message(),
        "terminal queue reconciliation failed: full"
    );
}

#[test]
fn startup_failures_keep_what_was_rejected_before() {
    let (startup, action) = Startup::begin(WorkerRunLimits::default(), true);
    assert!(matches!(action, StartupAction::OpenSession));
    let (_, action) = startup.step(StartupReply::QueueFailed {
        source: "owned elsewhere".to_owned(),
        failed_requests: 0,
    });
    assert!(matches!(
        action,
        StartupAction::Finish(Err(WorkerRunError::Queue { source, failed_requests: 0 }))
            if source == "owned elsewhere"
    ));

    let clean = |startup: Startup| {
        let (startup, _) = startup.step(StartupReply::Done);
        let (startup, _) = startup.step(StartupReply::Transaction(None));
        let (mut startup, mut action) =
            startup.step(StartupReply::Claims { claims: Vec::new(), complete: true });
        while matches!(action, StartupAction::PollStop) {
            (startup, action) = startup.step(StartupReply::Stop(false));
        }
        assert!(matches!(action, StartupAction::Discover));
        (startup, action) = startup.step(StartupReply::Transaction(None));
        while matches!(action, StartupAction::PollStop) {
            (startup, action) = startup.step(StartupReply::Stop(false));
        }
        (startup, action)
    };
    let (startup, action) = clean(Startup::begin(WorkerRunLimits::default(), true).0);
    assert!(matches!(action, StartupAction::StartReplication));
    let (_, action) = startup.step(StartupReply::ThreadFailed("no threads".to_owned()));
    assert!(matches!(
        action,
        StartupAction::Finish(Err(WorkerRunError::ReplicationThread(reason)))
            if reason == "no threads"
    ));
    let (_, action) = clean(Startup::begin(WorkerRunLimits::default(), false).0);
    assert!(matches!(
        action,
        StartupAction::Finish(Ok(InterruptibleStart::Started(StartupOutcome::Clean)))
    ));

    let (startup, _) = Startup::begin(WorkerRunLimits::default(), false);
    let (startup, action) = startup.step(StartupReply::Done);
    assert!(matches!(action, StartupAction::Summarize));
    let (_, action) = startup.step(StartupReply::ProcessorFailed(BatchProcessorError::Repository(
        GitTransactionError::InvalidJournal,
    )));
    assert!(matches!(
        action,
        StartupAction::Finish(Err(WorkerRunError::Processor { failed_requests: 0, .. }))
    ));
}

#[test]
fn paths_that_cannot_be_resolved_are_named() {
    let fields = |settings: &WorkerSettings| {
        [
            settings.queue_root(),
            settings.repository_root(),
            settings.content_root(),
            settings.work_root(),
            settings.release_root(),
            settings.quartz_program(),
            settings.quartz_integration_root(),
        ]
        .into_iter()
        .map(host_path)
        .collect::<Vec<ContentPath>>()
    };
    let Ok(settings) = decode(wire()) else {
        panic!("fixture settings must decode");
    };
    let paths = fields(&settings);
    let mut resolutions: Vec<Vec<Resolution>> = paths.iter().map(|_| Vec::new()).collect();
    resolutions[0].push(Resolution::Failed("denied".to_owned()));
    assert!(matches!(
        validate_resolved_topology(&paths, &resolutions),
        Err(TopologyHalt::Failed(WorkerOpenError::PathResolution { field, source }))
            if field == "storage.queue_root" && source == "denied"
    ));
    let failure = WorkerOpenError::PathResolution {
        field: "storage.queue_root",
        source: "denied".to_owned(),
    };
    assert_eq!(
        failure.message(),
        "could not resolve Worker path `storage.queue_root`: denied"
    );
    let failure = ReleaseMaintenanceError::Topology(failure);
    assert_eq!(
        failure.message(),
        "unsafe Worker topology: could not resolve Worker path `storage.queue_root`: denied"
    );
}
