//! Read-only status of one configured Worker deployment.
use crate::clock::Timestamp;
use crate::path::optional_text;
use crate::read_error::{read_message, CommittedReadError, ReadFailure};
use crate::replication::{
    replication_message, RemoteReplicationError, RemoteReplicationPolicy, ReplicationFailure,
    ReplicationState,
};
use crate::text::{join2, join4, same_text};
use crate::topology::{open_message, OpenFailure, WorkerOpenError};
use vstd::prelude::*;
use vstd::string::*;

verus! {

/// Operational status schema emitted by this release.
pub const CURRENT_OPERATIONAL_STATUS_VERSION: u16 = 1;

/// Counts and liveness observed from the durable request queue.
#[derive(Debug)]
pub struct QueueStatus<T = String> {
    /// Requests waiting for the Worker.
    pub pending: u64,
    /// Requests owned by the Worker.
    pub processing: u64,
    /// Locally published requests.
    pub completed: u64,
    /// Permanently rejected requests.
    pub failed: u64,
    /// The oldest pending acceptance as RFC 3339 text.
    pub oldest_pending_at: Option<T>,
    /// Whether the Worker lock was held.
    pub worker_active: bool,
    /// Whether the counts belong to one moment.
    pub snapshot_exact: bool,
}

/// A queue status with its texts as sequences.
pub type QueueView = QueueStatus<Seq<char>>;

impl View for QueueStatus {
    type V = QueueView;

    open spec fn view(&self) -> QueueView {
        QueueStatus {
            pending: self.pending,
            processing: self.processing,
            completed: self.completed,
            failed: self.failed,
            oldest_pending_at: optional_text(self.oldest_pending_at),
            worker_active: self.worker_active,
            snapshot_exact: self.snapshot_exact,
        }
    }
}

/// A borrowed text that may be missing.
fn borrowed(text: &Option<String>) -> (result: Option<&str>)
    ensures
        (match result {
            Some(found) => Some(found@),
            None => None,
        }) == optional_text(*text),
{
    match text {
        Some(text) => Some(text.as_str()),
        None => None,
    }
}

impl QueueStatus {
    /// Returns the number of requests waiting for the Worker.
    pub fn pending(&self) -> (count: u64)
        ensures
            count == self@.pending,
    {
        self.pending
    }

    /// Returns the number of requests currently owned by the Worker.
    pub fn processing(&self) -> (count: u64)
        ensures
            count == self@.processing,
    {
        self.processing
    }

    /// Returns the number of locally published requests.
    pub fn completed(&self) -> (count: u64)
        ensures
            count == self@.completed,
    {
        self.completed
    }

    /// Returns the number of permanently rejected requests.
    pub fn failed(&self) -> (count: u64)
        ensures
            count == self@.failed,
    {
        self.failed
    }

    /// Returns the oldest pending acceptance timestamp as RFC 3339 text.
    pub fn oldest_pending_at(&self) -> (text: Option<&str>)
        ensures
            (match text {
                Some(found) => Some(found@),
                None => None,
            }) == self@.oldest_pending_at,
    {
        borrowed(&self.oldest_pending_at)
    }

    /// Returns whether the Repository Worker lock was held during observation.
    pub fn worker_active(&self) -> (active: bool)
        ensures
            active == self@.worker_active,
    {
        self.worker_active
    }

    /// Returns whether the counts belong to one moment.
    pub fn snapshot_exact(&self) -> (exact: bool)
        ensures
            exact == self@.snapshot_exact,
    {
        self.snapshot_exact
    }
}

/// Identity of the static release selected by `releases/current`.
#[derive(Debug)]
pub struct ActiveReleaseStatus<T = String> {
    /// The immutable release.
    pub release_id: T,
    /// The commit that it represents.
    pub commit: T,
}

/// A release status with its texts as sequences.
pub type ReleaseView = ActiveReleaseStatus<Seq<char>>;

impl View for ActiveReleaseStatus {
    type V = ReleaseView;

    open spec fn view(&self) -> ReleaseView {
        ActiveReleaseStatus { release_id: self.release_id@, commit: self.commit@ }
    }
}

impl ActiveReleaseStatus {
    /// Returns the immutable release identifier.
    pub fn release_id(&self) -> (text: &str)
        ensures
            text@ == self@.release_id,
    {
        self.release_id.as_str()
    }

    /// Returns the Git commit represented by the release.
    pub fn commit(&self) -> (text: &str)
        ensures
            text@ == self@.commit,
    {
        self.commit.as_str()
    }
}

/// Local Git and static-release publication state.
#[derive(Debug)]
pub struct PublicationStatus<T = String> {
    /// The official commit.
    pub official_commit: T,
    /// The selected release.
    pub active_release: Option<ActiveReleaseStatus<T>>,
    /// Whether that release represents the official commit.
    pub synchronized: bool,
}

/// A publication status with its texts as sequences.
pub type PublicationView = PublicationStatus<Seq<char>>;

impl View for PublicationStatus {
    type V = PublicationView;

    open spec fn view(&self) -> PublicationView {
        PublicationStatus {
            official_commit: self.official_commit@,
            active_release: match self.active_release {
                Some(release) => Some(release@),
                None => None,
            },
            synchronized: self.synchronized,
        }
    }
}

impl PublicationStatus {
    /// Returns the current official local Git commit.
    pub fn official_commit(&self) -> (text: &str)
        ensures
            text@ == self@.official_commit,
    {
        self.official_commit.as_str()
    }

    /// Returns the selected static release, if publication has occurred.
    pub fn active_release(&self) -> (release: Option<&ActiveReleaseStatus>)
        ensures
            (match release {
                Some(found) => Some(found@),
                None => None,
            }) == self@.active_release,
    {
        match &self.active_release {
            Some(release) => Some(release),
            None => None,
        }
    }

    /// Returns whether the active release represents the official commit.
    pub fn synchronized(&self) -> (synchronized: bool)
        ensures
            synchronized == self@.synchronized,
    {
        self.synchronized
    }
}

/// Remote replication state relative to the observed official commit.
#[derive(Debug)]
pub enum ReplicationStatus<T = String> {
    /// No remote replication policy is configured.
    Disabled,
    /// Replication is configured but has no durable attempt state yet.
    NotAttempted {
        /// The remote.
        remote: T,
        /// The branch.
        branch: T,
    },
    /// The configured remote has confirmed the observed official commit.
    Current {
        /// The remote.
        remote: T,
        /// The branch.
        branch: T,
        /// The commit.
        commit: T,
    },
    /// The configured remote has not confirmed the observed official commit.
    Lagging {
        /// The remote.
        remote: T,
        /// The branch.
        branch: T,
        /// The official commit.
        official_commit: T,
        /// The last confirmed commit.
        replicated_commit: Option<T>,
        /// Failures in a row.
        consecutive_failures: u32,
        /// The next attempt as RFC 3339 text.
        retry_at: Option<T>,
    },
}

/// A replication status with its texts as sequences.
pub type ReplicationStatusView = ReplicationStatus<Seq<char>>;

impl View for ReplicationStatus {
    type V = ReplicationStatusView;

    open spec fn view(&self) -> ReplicationStatusView {
        match *self {
            ReplicationStatus::Disabled => ReplicationStatus::Disabled,
            ReplicationStatus::NotAttempted { remote, branch } => ReplicationStatus::NotAttempted {
                remote: remote@,
                branch: branch@,
            },
            ReplicationStatus::Current { remote, branch, commit } => ReplicationStatus::Current {
                remote: remote@,
                branch: branch@,
                commit: commit@,
            },
            ReplicationStatus::Lagging {
                remote,
                branch,
                official_commit,
                replicated_commit,
                consecutive_failures,
                retry_at,
            } => ReplicationStatus::Lagging {
                remote: remote@,
                branch: branch@,
                official_commit: official_commit@,
                replicated_commit: optional_text(replicated_commit),
                consecutive_failures,
                retry_at: optional_text(retry_at),
            },
        }
    }
}

/// Read-only status of one configured Worker deployment.
#[derive(Debug)]
pub struct OperationalStatus {
    /// The schema version.
    pub schema_version: u16,
    /// The time of the observation as RFC 3339 text.
    pub observed_at: String,
    /// The durable queue.
    pub queue: QueueStatus,
    /// The local publication.
    pub publication: PublicationStatus,
    /// The optional remote replication.
    pub replication: ReplicationStatus,
}

impl OperationalStatus {
    /// Returns the durable queue summary.
    pub fn queue(&self) -> (status: &QueueStatus)
        ensures
            *status == self.queue,
    {
        &self.queue
    }

    /// Returns the local publication summary.
    pub fn publication(&self) -> (status: &PublicationStatus)
        ensures
            *status == self.publication,
    {
        &self.publication
    }

    /// Returns the optional remote replication summary.
    pub fn replication(&self) -> (status: &ReplicationStatus)
        ensures
            *status == self.replication,
    {
        &self.replication
    }
}

/// Failure while collecting a read-only operational snapshot.
#[derive(Debug)]
pub enum OperationalStatusError<
    T = String,
    D = &'static str,
    W = WorkerOpenError,
    C = CommittedReadError,
    R = RemoteReplicationError,
> {
    /// Configured paths overlap or cannot be resolved.
    Topology(W),
    /// A component could not attest the filesystem object that it pinned.
    Attestation {
        /// Component boundary whose pinned path could not be attested.
        component: D,
        /// Attestation failure.
        source: T,
    },
    /// The queue could not be inspected.
    Queue(T),
    /// The repository could not be inspected.
    Repository(C),
    /// The releases could not be inspected.
    Release(T),
    /// Remote replication could not be inspected.
    Replication(R),
    /// The publication changed while it was observed.
    PublicationChanged,
    /// A timestamp could not be written.
    Timestamp(T),
}

/// A failure with its texts as sequences.
pub type StatusFailure = OperationalStatusError<
    Seq<char>,
    Seq<char>,
    OpenFailure,
    ReadFailure,
    ReplicationFailure,
>;

impl View for OperationalStatusError {
    type V = StatusFailure;

    open spec fn view(&self) -> StatusFailure {
        match *self {
            OperationalStatusError::Topology(error) => OperationalStatusError::Topology(error@),
            OperationalStatusError::Attestation { component, source } =>
                OperationalStatusError::Attestation { component: component@, source: source@ },
            OperationalStatusError::Queue(reason) => OperationalStatusError::Queue(reason@),
            OperationalStatusError::Repository(error) => OperationalStatusError::Repository(error@),
            OperationalStatusError::Release(reason) => OperationalStatusError::Release(reason@),
            OperationalStatusError::Replication(error) => OperationalStatusError::Replication(
                error@,
            ),
            OperationalStatusError::PublicationChanged =>
                OperationalStatusError::PublicationChanged,
            OperationalStatusError::Timestamp(reason) => OperationalStatusError::Timestamp(reason@),
        }
    }
}

/// What a failure is reported as.
pub open spec fn status_message(failure: StatusFailure) -> Seq<char> {
    match failure {
        OperationalStatusError::Topology(error) => "invalid Worker topology: "@ + open_message(
            error,
        ),
        OperationalStatusError::Attestation { component, source } => "could not attest "@
            + component + ": "@ + source,
        OperationalStatusError::Queue(reason) => "could not inspect queue: "@ + reason,
        OperationalStatusError::Repository(error) => "could not inspect repository: "@
            + read_message(error),
        OperationalStatusError::Release(reason) => "could not inspect releases: "@ + reason,
        OperationalStatusError::Replication(error) => "could not inspect remote replication: "@
            + replication_message(error),
        OperationalStatusError::PublicationChanged =>
            "publication changed during observation"@,
        OperationalStatusError::Timestamp(reason) => "could not format status timestamp: "@
            + reason,
    }
}

impl OperationalStatusError {
    /// What the failure is reported as.
    pub fn message(&self) -> (text: String)
        ensures
            text@ == status_message(self@),
    {
        match self {
            OperationalStatusError::Topology(error) => join2(
                "invalid Worker topology: ",
                error.message().as_str(),
            ),
            OperationalStatusError::Attestation { component, source } => join4(
                "could not attest ",
                component,
                ": ",
                source.as_str(),
            ),
            OperationalStatusError::Queue(reason) => join2(
                "could not inspect queue: ",
                reason.as_str(),
            ),
            OperationalStatusError::Repository(error) => join2(
                "could not inspect repository: ",
                error.message().as_str(),
            ),
            OperationalStatusError::Release(reason) => join2(
                "could not inspect releases: ",
                reason.as_str(),
            ),
            OperationalStatusError::Replication(error) => join2(
                "could not inspect remote replication: ",
                error.message().as_str(),
            ),
            OperationalStatusError::PublicationChanged =>
                "publication changed during observation".to_owned(),
            OperationalStatusError::Timestamp(reason) => join2(
                "could not format status timestamp: ",
                reason.as_str(),
            ),
        }
    }
}

/// A timestamp as status text.
pub open spec fn status_time(timestamp: Timestamp) -> Result<Seq<char>, StatusFailure> {
    match timestamp.spec_rfc3339() {
        Ok(text) => Ok(text),
        Err(reason) => Err(OperationalStatusError::Timestamp(reason)),
    }
}

/// A timestamp that may be missing, as status text.
pub open spec fn optional_time(timestamp: Option<Timestamp>) -> Result<
    Option<Seq<char>>,
    StatusFailure,
> {
    match timestamp {
        None => Ok(None),
        Some(timestamp) => match status_time(timestamp) {
            Ok(text) => Ok(Some(text)),
            Err(failure) => Err(failure),
        },
    }
}

/// Writes a timestamp as status text.
pub fn format_timestamp(timestamp: &Timestamp) -> (result: Result<String, OperationalStatusError>)
    ensures
        (match result {
            Ok(text) => Ok(text@),
            Err(error) => Err(error@),
        }) == status_time(*timestamp),
{
    match timestamp.rfc3339() {
        Ok(text) => Ok(text),
        Err(reason) => Err(OperationalStatusError::Timestamp(reason)),
    }
}

fn format_optional(timestamp: &Option<Timestamp>) -> (result: Result<
    Option<String>,
    OperationalStatusError,
>)
    ensures
        (match result {
            Ok(text) => Ok(optional_text(text)),
            Err(error) => Err(error@),
        }) == optional_time(*timestamp),
{
    match timestamp {
        None => Ok(None),
        Some(timestamp) => match format_timestamp(timestamp) {
            Ok(text) => Ok(Some(text)),
            Err(error) => Err(error),
        },
    }
}

/// What was observed of the queue.
#[derive(Clone, Copy, Debug, PartialEq, Eq, Structural)]
pub struct QueueOverview {
    /// Requests waiting for the Worker.
    pub pending: u64,
    /// Requests owned by the Worker.
    pub processing: u64,
    /// Locally published requests.
    pub completed: u64,
    /// Permanently rejected requests.
    pub failed: u64,
    /// When the oldest pending request was accepted.
    pub oldest_pending_at: Option<Timestamp>,
    /// Whether the Worker lock was held.
    pub worker_active: bool,
    /// Whether the counts belong to one moment.
    pub snapshot_exact: bool,
}

/// The status of an observed queue.
pub open spec fn summarized(overview: QueueOverview) -> Result<QueueView, StatusFailure> {
    match optional_time(overview.oldest_pending_at) {
        Err(failure) => Err(failure),
        Ok(oldest_pending_at) => Ok(
            QueueStatus {
                pending: overview.pending,
                processing: overview.processing,
                completed: overview.completed,
                failed: overview.failed,
                oldest_pending_at,
                worker_active: overview.worker_active,
                snapshot_exact: overview.snapshot_exact,
            },
        ),
    }
}

/// Summarizes an observed queue.
pub fn queue_status(overview: &QueueOverview) -> (result: Result<
    QueueStatus,
    OperationalStatusError,
>)
    ensures
        (match result {
            Ok(status) => Ok(status@),
            Err(error) => Err(error@),
        }) == summarized(*overview),
{
    match format_optional(&overview.oldest_pending_at) {
        Err(error) => Err(error),
        Ok(oldest_pending_at) => Ok(
            QueueStatus {
                pending: overview.pending,
                processing: overview.processing,
                completed: overview.completed,
                failed: overview.failed,
                oldest_pending_at,
                worker_active: overview.worker_active,
                snapshot_exact: overview.snapshot_exact,
            },
        ),
    }
}

/// Summarizes the local publication: it is synchronized if the active release represents the
/// official commit.
pub fn publication_status(official_commit: String, active_release: Option<ActiveReleaseStatus>) -> (status:
    PublicationStatus)
    ensures
        status@.official_commit == official_commit@,
        status@.active_release == (match active_release {
            Some(release) => Some(release@),
            None => None,
        }),
        status@.synchronized <==> (active_release matches Some(release) && release@.commit
            == official_commit@),
{
    let synchronized = match &active_release {
        Some(release) => same_text(release.commit.as_str(), official_commit.as_str()),
        None => false,
    };
    PublicationStatus { official_commit, active_release, synchronized }
}

/// Holds a publication against a later observation of it: it is reported only if nothing changed
/// in between.
pub fn steady_publication(first: PublicationStatus, later: &PublicationStatus) -> (result: Result<
    PublicationStatus,
    OperationalStatusError,
>)
    ensures
        match result {
            Ok(publication) => publication == first && first@ == later@,
            Err(error) => first@ != later@ && error@ == StatusFailure::PublicationChanged,
        },
{
    let same_release = match (&first.active_release, &later.active_release) {
        (Some(one), Some(other)) => same_text(one.release_id.as_str(), other.release_id.as_str())
            && same_text(one.commit.as_str(), other.commit.as_str()),
        (None, None) => true,
        _ => false,
    };
    if same_release && first.synchronized == later.synchronized && same_text(
        first.official_commit.as_str(),
        later.official_commit.as_str(),
    ) {
        Ok(first)
    } else {
        Err(OperationalStatusError::PublicationChanged)
    }
}

/// Durable state of the configured replication.
#[derive(Debug)]
pub struct DurableReplicationStatus<T = String> {
    /// The last confirmed commit.
    pub replicated_commit: Option<T>,
    /// Failures in a row.
    pub consecutive_failures: u32,
    /// The next attempt.
    pub retry_at: Option<Timestamp>,
}

/// Selects what stored state says of the replication under a policy: nothing, where it is of
/// another remote or branch.
pub fn durable_replication(policy: &RemoteReplicationPolicy, stored: Option<ReplicationState>) -> (result:
    Option<DurableReplicationStatus>)
    ensures
        result is Some <==> (stored matches Some(state) && state.remote@ == policy.spec_remote()
            && state.branch@ == policy.spec_branch()),
        result matches Some(durable) ==> {
            &&& durable.replicated_commit == stored->0.replicated_commit
            &&& durable.consecutive_failures == stored->0.consecutive_failures
            &&& durable.retry_at == stored->0.retry_at
        },
{
    match stored {
        None => None,
        Some(state) => if same_text(state.remote.as_str(), policy.remote().as_str()) && same_text(
            state.branch.as_str(),
            policy.branch().as_str(),
        ) {
            Some(
                DurableReplicationStatus {
                    replicated_commit: state.replicated_commit,
                    consecutive_failures: state.consecutive_failures,
                    retry_at: state.retry_at,
                },
            )
        } else {
            None
        },
    }
}

/// The status of a configured replication.
pub open spec fn compared(
    remote: Seq<char>,
    branch: Seq<char>,
    durable: Option<DurableReplicationStatus>,
    official_commit: Seq<char>,
) -> Result<ReplicationStatusView, StatusFailure> {
    match durable {
        None => Ok(ReplicationStatus::NotAttempted { remote, branch }),
        Some(durable) => if optional_text(durable.replicated_commit) == Some(official_commit) {
            Ok(ReplicationStatus::Current { remote, branch, commit: official_commit })
        } else {
            match optional_time(durable.retry_at) {
                Err(failure) => Err(failure),
                Ok(retry_at) => Ok(
                    ReplicationStatus::Lagging {
                        remote,
                        branch,
                        official_commit,
                        replicated_commit: optional_text(durable.replicated_commit),
                        consecutive_failures: durable.consecutive_failures,
                        retry_at,
                    },
                ),
            }
        },
    }
}

/// Compares the durable state of a replication with the official commit.
pub fn replication_status(
    policy: Option<&RemoteReplicationPolicy>,
    durable: Option<DurableReplicationStatus>,
    official_commit: &str,
) -> (result: Result<ReplicationStatus, OperationalStatusError>)
    ensures
        (match result {
            Ok(status) => Ok(status@),
            Err(error) => Err(error@),
        }) == match policy {
            None => Ok(ReplicationStatus::Disabled),
            Some(policy) => compared(
                policy.spec_remote(),
                policy.spec_branch(),
                durable,
                official_commit@,
            ),
        },
{
    let policy = match policy {
        None => {
            return Ok(ReplicationStatus::Disabled);
        },
        Some(policy) => policy,
    };
    let remote = policy.remote().clone();
    let branch = policy.branch().clone();
    let durable = match durable {
        None => {
            return Ok(ReplicationStatus::NotAttempted { remote, branch });
        },
        Some(durable) => durable,
    };
    let current = match &durable.replicated_commit {
        Some(commit) => same_text(commit.as_str(), official_commit),
        None => false,
    };
    if current {
        return Ok(
            ReplicationStatus::Current { remote, branch, commit: official_commit.to_owned() },
        );
    }
    match format_optional(&durable.retry_at) {
        Err(error) => Err(error),
        Ok(retry_at) => Ok(
            ReplicationStatus::Lagging {
                remote,
                branch,
                official_commit: official_commit.to_owned(),
                replicated_commit: durable.replicated_commit,
                consecutive_failures: durable.consecutive_failures,
                retry_at,
            },
        ),
    }
}

/// Puts the observed parts together.
pub fn operational_status(
    observed_at: &Timestamp,
    queue: QueueStatus,
    publication: PublicationStatus,
    replication: ReplicationStatus,
) -> (result: Result<OperationalStatus, OperationalStatusError>)
    ensures
        match result {
            Ok(status) => status_time(*observed_at) == Ok::<Seq<char>, StatusFailure>(
                status.observed_at@,
            ) && status.schema_version == CURRENT_OPERATIONAL_STATUS_VERSION && status.queue
                == queue && status.publication == publication && status.replication == replication,
            Err(error) => status_time(*observed_at) == Err::<Seq<char>, StatusFailure>(error@),
        },
{
    match format_timestamp(observed_at) {
        Err(error) => Err(error),
        Ok(observed_at) => Ok(
            OperationalStatus {
                schema_version: CURRENT_OPERATIONAL_STATUS_VERSION,
                observed_at,
                queue,
                publication,
                replication,
            },
        ),
    }
}

/// A replication is reported as current exactly when the remote confirmed the official commit.
pub proof fn current_replication_is_confirmed(
    remote: Seq<char>,
    branch: Seq<char>,
    durable: Option<DurableReplicationStatus>,
    official_commit: Seq<char>,
)
    ensures
        compared(remote, branch, durable, official_commit) matches Ok(
            ReplicationStatus::Current { .. },
        ) <==> (durable matches Some(state) && optional_text(state.replicated_commit) == Some(
            official_commit,
        )),
{
}

/// Failure while applying local derived-release retention.
#[derive(Debug)]
pub enum ReleaseMaintenanceError<T = String, W = WorkerOpenError> {
    /// Configured paths resolve to an unsafe or overlapping topology.
    Topology(W),
    /// The release store could not be opened or retained safely.
    Release(T),
}

impl ReleaseMaintenanceError {
    /// What the failure is reported as.
    pub fn message(&self) -> (text: String)
        ensures
            text@ == match *self {
                ReleaseMaintenanceError::Topology(error) => "unsafe Worker topology: "@
                    + open_message(error@),
                ReleaseMaintenanceError::Release(reason) => "release retention failed: "@ + reason@,
            },
    {
        match self {
            ReleaseMaintenanceError::Topology(error) => join2(
                "unsafe Worker topology: ",
                error.message().as_str(),
            ),
            ReleaseMaintenanceError::Release(reason) => join2(
                "release retention failed: ",
                reason.as_str(),
            ),
        }
    }
}

} // verus!
