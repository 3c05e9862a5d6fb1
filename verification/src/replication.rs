//! Asynchronous replication of the official branch to a remote.
use crate::apply::same_bytes;
use crate::clock::Timestamp;
use crate::fields::{ends_with, has_suffix, slice_bytes};
use crate::git_error::{git_message, GitFailure, GitTransactionError};
use crate::git_text::{is_object_id, ObjectId};
use crate::ids::{revision, revision_of, Revision};
use crate::path::optional_text;
use crate::search_text::{contains_text, occurs};
use crate::text::{characters, join2, join3, same_text};
use vstd::prelude::*;
use vstd::string::*;

verus! {

/// The version of stored replication state.
pub const REPLICATION_STATE_VERSION: u16 = 1;

/// Maximum bytes of stored replication state.
pub const MAXIMUM_STATE_BYTES: u64 = 65_536;

/// The longest signed time span of whole seconds, in nanoseconds.
pub const MAXIMUM_SIGNED_SPAN: u128 = 9_223_372_036_854_775_807_999_999_999;

/// Failure to validate or persist one remote-replication step.
#[allow(inconsistent_fields)]
#[derive(Debug)]
pub enum RemoteReplicationError<T = String, G = GitTransactionError, D = &'static str> {
    /// A policy field was unsafe or outside supported bounds.
    InvalidPolicy(D),
    /// The configured remote was absent or unreadable.
    RemoteUnavailable,
    /// Another replication step is already active.
    Busy,
    /// An earlier in-process replication attempt panicked while holding its lock.
    LockPoisoned,
    /// The fixed cross-process lock entry no longer names the pinned file.
    LockReplaced,
    /// Durable replication state was malformed or unsafe.
    InvalidState,
    /// Local repository inspection failed.
    Repository(G),
    /// Durable state or lock I/O failed.
    Io(T),
}

/// A failure with its texts as sequences.
pub type ReplicationFailure = RemoteReplicationError<Seq<char>, GitFailure, Seq<char>>;

impl View for RemoteReplicationError {
    type V = ReplicationFailure;

    open spec fn view(&self) -> ReplicationFailure {
        match *self {
            RemoteReplicationError::InvalidPolicy(field) => RemoteReplicationError::InvalidPolicy(
                field@,
            ),
            RemoteReplicationError::RemoteUnavailable => RemoteReplicationError::RemoteUnavailable,
            RemoteReplicationError::Busy => RemoteReplicationError::Busy,
            RemoteReplicationError::LockPoisoned => RemoteReplicationError::LockPoisoned,
            RemoteReplicationError::LockReplaced => RemoteReplicationError::LockReplaced,
            RemoteReplicationError::InvalidState => RemoteReplicationError::InvalidState,
            RemoteReplicationError::Repository(error) => RemoteReplicationError::Repository(
                error@,
            ),
            RemoteReplicationError::Io(reason) => RemoteReplicationError::Io(reason@),
        }
    }
}

/// What a failure is reported as.
pub open spec fn replication_message(failure: ReplicationFailure) -> Seq<char> {
    match failure {
        RemoteReplicationError::InvalidPolicy(field) => "remote replication `"@ + field
            + "` is invalid"@,
        RemoteReplicationError::RemoteUnavailable => "configured Git remote is unavailable"@,
        RemoteReplicationError::Busy => "another remote replication attempt is active"@,
        RemoteReplicationError::LockPoisoned => "remote replication lock is poisoned"@,
        RemoteReplicationError::LockReplaced => "remote replication lock was replaced"@,
        RemoteReplicationError::InvalidState => "durable remote replication state is invalid"@,
        RemoteReplicationError::Repository(error) => "local repository validation failed: "@
            + git_message(error),
        RemoteReplicationError::Io(reason) => "remote replication state I/O failed: "@ + reason,
    }
}

impl RemoteReplicationError {
    /// What the failure is reported as.
    pub fn message(&self) -> (text: String)
        ensures
            text@ == replication_message(self@),
    {
        match self {
            RemoteReplicationError::InvalidPolicy(field) => join3(
                "remote replication `",
                field,
                "` is invalid",
            ),
            RemoteReplicationError::RemoteUnavailable =>
                "configured Git remote is unavailable".to_owned(),
            RemoteReplicationError::Busy =>
                "another remote replication attempt is active".to_owned(),
            RemoteReplicationError::LockPoisoned =>
                "remote replication lock is poisoned".to_owned(),
            RemoteReplicationError::LockReplaced =>
                "remote replication lock was replaced".to_owned(),
            RemoteReplicationError::InvalidState =>
                "durable remote replication state is invalid".to_owned(),
            RemoteReplicationError::Repository(error) => join2(
                "local repository validation failed: ",
                error.message().as_str(),
            ),
            RemoteReplicationError::Io(reason) => join2(
                "remote replication state I/O failed: ",
                reason.as_str(),
            ),
        }
    }
}

/// Whether a character is an ASCII letter or digit.
pub open spec fn is_alphanumeric(c: char) -> bool {
    '0' <= c <= '9' || 'A' <= c <= 'Z' || 'a' <= c <= 'z'
}

/// Whether a name is that of a remote.
pub open spec fn is_remote_name(name: Seq<char>) -> bool {
    &&& name.len() > 0
    &&& name[0] != '-' && name[0] != '.'
    &&& name.last() != '.'
    &&& forall|i: int|
        0 <= i < name.len() ==> is_alphanumeric(#[trigger] name[i]) || name[i] == '-' || name[i]
            == '_' || name[i] == '.'
}

/// Whether a name is that of a remote.
pub fn valid_remote_name(name: &str) -> (result: bool)
    ensures
        result == is_remote_name(name@),
{
    let chars = characters(name);
    let count: usize = chars.len();
    if count == 0 || chars[0] == '-' || chars[0] == '.' || chars[count - 1] == '.' {
        return false;
    }
    let mut i: usize = 0;
    while i < count
        invariant
            i <= count == chars@.len(),
            chars@ == name@,
            forall|j: int|
                0 <= j < i ==> is_alphanumeric(#[trigger] name@[j]) || name@[j] == '-' || name@[j]
                    == '_' || name@[j] == '.',
        decreases count - i,
    {
        let c = chars[i];
        let alphanumeric = ('0' <= c && c <= '9') || ('A' <= c && c <= 'Z') || ('a' <= c && c
            <= 'z');
        if !alphanumeric && c != '-' && c != '_' && c != '.' {
            assert(name@[i as int] == c);
            return false;
        }
        i += 1;
    }
    true
}

/// Whether a character may stand in the name of a branch.
pub open spec fn is_branch_character(c: char) -> bool {
    c >= ' ' && c != '\u{7f}' && c != ' ' && c != '~' && c != '^' && c != ':' && c != '?' && c
        != '*' && c != '[' && c != '\\'
}

/// Whether a name is that of a branch.
pub open spec fn is_destination(name: Seq<char>) -> bool {
    &&& name.len() > 0
    &&& name[0] != '-' && name[0] != '.' && name[0] != '/'
    &&& name.last() != '.' && name.last() != '/'
    &&& !ends_with(name, ".lock"@)
    &&& !occurs(name, ".."@)
    &&& !occurs(name, "//"@)
    &&& !occurs(name, "@{"@)
    &&& forall|i: int| 0 <= i < name.len() ==> is_branch_character(#[trigger] name[i])
}

/// Whether a name is that of a branch.
pub fn valid_branch_name(name: &str) -> (result: bool)
    ensures
        result == is_destination(name@),
{
    let chars = characters(name);
    let count: usize = chars.len();
    if count == 0 {
        return false;
    }
    let first = chars[0];
    let last = chars[count - 1];
    if first == '-' || first == '.' || first == '/' || last == '.' || last == '/' {
        return false;
    }
    if has_suffix(name, ".lock") || contains_text(name, "..") || contains_text(name, "//")
        || contains_text(name, "@{") {
        return false;
    }
    let mut i: usize = 0;
    while i < count
        invariant
            i <= count == chars@.len(),
            chars@ == name@,
            forall|j: int| 0 <= j < i ==> is_branch_character(#[trigger] name@[j]),
        decreases count - i,
    {
        let c = chars[i];
        if c < ' ' || c == '\u{7f}' || c == ' ' || c == '~' || c == '^' || c == ':' || c == '?' || c
            == '*' || c == '[' || c == '\\' {
            assert(name@[i as int] == c);
            return false;
        }
        i += 1;
    }
    true
}

/// Validated retry and destination settings for asynchronous Git replication. Time spans are in
/// nanoseconds.
#[derive(Debug)]
pub struct RemoteReplicationPolicy {
    remote: String,
    branch: String,
    timeout: u128,
    initial_backoff: u128,
    maximum_backoff: u128,
}

/// Whether the time spans of a policy can be used, from the present on. `instants` says whether
/// the machine's own clock can reach the timeout and the maximum backoff.
pub open spec fn is_timing(
    timeout: u128,
    initial_backoff: u128,
    maximum_backoff: u128,
    now: Timestamp,
    instants: bool,
) -> bool {
    &&& timeout > 0
    &&& initial_backoff > 0
    &&& maximum_backoff >= initial_backoff
    &&& instants
    &&& maximum_backoff <= MAXIMUM_SIGNED_SPAN
    &&& now.reaches(maximum_backoff as int)
}

impl RemoteReplicationPolicy {
    /// The remote name.
    pub closed spec fn spec_remote(self) -> Seq<char> {
        self.remote@
    }

    /// The destination branch.
    pub closed spec fn spec_branch(self) -> Seq<char> {
        self.branch@
    }

    /// The time that one push may take.
    pub closed spec fn spec_timeout(self) -> u128 {
        self.timeout
    }

    /// The delay after the first failure.
    pub closed spec fn spec_initial_backoff(self) -> u128 {
        self.initial_backoff
    }

    /// The longest delay.
    pub closed spec fn spec_maximum_backoff(self) -> u128 {
        self.maximum_backoff
    }

    #[verifier::type_invariant]
    spec fn is_valid(self) -> bool {
        &&& is_remote_name(self.remote@)
        &&& is_destination(self.branch@)
        &&& 0 < self.initial_backoff <= self.maximum_backoff <= MAXIMUM_SIGNED_SPAN
        &&& 0 < self.timeout
    }

    /// Creates a bounded remote-push policy.
    pub fn new(
        remote: &str,
        branch: &str,
        timeout: u128,
        initial_backoff: u128,
        maximum_backoff: u128,
        now: &Timestamp,
        instants: bool,
    ) -> (result: Result<RemoteReplicationPolicy, RemoteReplicationError>)
        ensures
            match result {
                Ok(policy) => {
                    &&& is_remote_name(remote@)
                    &&& is_destination(branch@)
                    &&& is_timing(timeout, initial_backoff, maximum_backoff, *now, instants)
                    &&& policy.spec_remote() == remote@
                    &&& policy.spec_branch() == branch@
                    &&& policy.spec_timeout() == timeout
                    &&& policy.spec_initial_backoff() == initial_backoff
                    &&& policy.spec_maximum_backoff() == maximum_backoff
                },
                Err(error) => error@ == ReplicationFailure::InvalidPolicy(
                    if !is_remote_name(remote@) {
                        "remote"@
                    } else if !is_destination(branch@) {
                        "branch"@
                    } else {
                        "timing"@
                    },
                ) && !(is_remote_name(remote@) && is_destination(branch@) && is_timing(
                    timeout,
                    initial_backoff,
                    maximum_backoff,
                    *now,
                    instants,
                )),
            },
    {
        if !valid_remote_name(remote) {
            return Err(RemoteReplicationError::InvalidPolicy("remote"));
        }
        if !valid_branch_name(branch) {
            return Err(RemoteReplicationError::InvalidPolicy("branch"));
        }
        if timeout == 0 || initial_backoff == 0 || maximum_backoff < initial_backoff || !instants
            || maximum_backoff > MAXIMUM_SIGNED_SPAN || now.checked_add(
            maximum_backoff as i128,
        ).is_none() {
            return Err(RemoteReplicationError::InvalidPolicy("timing"));
        }
        Ok(
            RemoteReplicationPolicy {
                remote: remote.to_owned(),
                branch: branch.to_owned(),
                timeout,
                initial_backoff,
                maximum_backoff,
            },
        )
    }

    /// Returns the configured Git remote name.
    pub fn remote(&self) -> (result: &String)
        ensures
            result@ == self.spec_remote(),
    {
        &self.remote
    }

    /// Returns the destination branch name.
    pub fn branch(&self) -> (result: &String)
        ensures
            result@ == self.spec_branch(),
    {
        &self.branch
    }

    /// Returns the time that one push may take.
    pub fn timeout(&self) -> (result: u128)
        ensures
            result == self.spec_timeout(),
    {
        self.timeout
    }
}

/// A time span doubled some times.
pub open spec fn doubled(span: nat, times: nat) -> nat
    decreases times,
{
    if times == 0 {
        span
    } else {
        2 * doubled(span, (times - 1) as nat)
    }
}

/// How often the delay doubles before a retry: once with each failure after the first, at most
/// thirty-one times.
pub open spec fn doublings(failures: u32) -> nat {
    if failures == 0 {
        0
    } else if failures > 32 {
        31
    } else {
        (failures - 1) as nat
    }
}

/// The delay after some failures in a row: it doubles with each failure up to a limit.
pub open spec fn backoff(initial: u128, maximum: u128, failures: u32) -> nat {
    let delay = doubled(initial as nat, doublings(failures));
    if delay < maximum {
        delay
    } else {
        maximum as nat
    }
}

proof fn doubled_grows(span: nat, fewer: nat, more: nat)
    requires
        fewer <= more,
    ensures
        doubled(span, fewer) <= doubled(span, more),
        span <= doubled(span, fewer),
    decreases more,
{
    if fewer < more {
        doubled_grows(span, fewer, (more - 1) as nat);
    } else if fewer > 0 {
        doubled_grows(span, (fewer - 1) as nat, (more - 1) as nat);
    }
}

/// Retries come no more often as failures mount, wait at least the initial delay, and never longer
/// than the limit.
pub proof fn backoff_grows_to_its_limit(initial: u128, maximum: u128, fewer: u32, more: u32)
    requires
        initial <= maximum,
        fewer <= more,
    ensures
        initial <= backoff(initial, maximum, fewer) <= backoff(initial, maximum, more) <= maximum,
{
    doubled_grows(initial as nat, doublings(fewer), doublings(more));
}

/// The delay before the next attempt after some failures in a row.
pub fn retry_delay(policy: &RemoteReplicationPolicy, failures: u32) -> (delay: u128)
    ensures
        delay == backoff(policy.spec_initial_backoff(), policy.spec_maximum_backoff(), failures),
        delay <= MAXIMUM_SIGNED_SPAN,
{
    proof {
        use_type_invariant(policy);
    }
    let times: u32 = if failures == 0 {
        0
    } else if failures > 32 {
        31
    } else {
        failures - 1
    };
    let maximum: u128 = policy.maximum_backoff;
    let mut delay: u128 = policy.initial_backoff;
    let ghost initial = policy.initial_backoff as nat;
    let mut i: u32 = 0;
    while i < times
        invariant
            i <= times,
            times == doublings(failures),
            0 < initial <= maximum <= MAXIMUM_SIGNED_SPAN,
            delay <= maximum,
            delay == (if doubled(initial, i as nat) < maximum {
                doubled(initial, i as nat)
            } else {
                maximum as nat
            }),
        decreases times - i,
    {
        delay = if delay * 2 < maximum {
            delay * 2
        } else {
            maximum
        };
        i += 1;
    }
    delay
}

/// Durable state of the replication to one destination.
#[derive(Debug)]
pub struct ReplicationState<T = String> {
    /// Version of the state.
    pub schema_version: u16,
    /// The remote.
    pub remote: T,
    /// The destination branch.
    pub branch: T,
    /// Fingerprint of the push destination.
    pub remote_fingerprint: Revision,
    /// The last commit that was pushed.
    pub replicated_commit: Option<T>,
    /// Failures since then.
    pub consecutive_failures: u32,
    /// The time before which no attempt is made.
    pub retry_at: Option<Timestamp>,
}

/// State with its texts as sequences.
pub type ReplicationView = ReplicationState<Seq<char>>;

impl View for ReplicationState {
    type V = ReplicationView;

    open spec fn view(&self) -> ReplicationView {
        ReplicationState {
            schema_version: self.schema_version,
            remote: self.remote@,
            branch: self.branch@,
            remote_fingerprint: self.remote_fingerprint,
            replicated_commit: optional_text(self.replicated_commit),
            consecutive_failures: self.consecutive_failures,
            retry_at: self.retry_at,
        }
    }
}

/// Whether state is well formed: a retry is due exactly after failures.
pub open spec fn is_state(state: ReplicationView) -> bool {
    &&& state.schema_version == REPLICATION_STATE_VERSION
    &&& is_remote_name(state.remote)
    &&& is_destination(state.branch)
    &&& state.replicated_commit matches Some(commit) ==> is_object_id(commit)
    &&& (state.consecutive_failures == 0) == (state.retry_at is None)
}

/// Checks that state is well formed.
pub fn validate_state(state: &ReplicationState) -> (result: Result<(), RemoteReplicationError>)
    ensures
        match result {
            Ok(()) => is_state(state@),
            Err(error) => !is_state(state@) && error@ == ReplicationFailure::InvalidState,
        },
{
    let known_commit = match &state.replicated_commit {
        Some(commit) => ObjectId::parse(commit.as_str()).is_some(),
        None => true,
    };
    if state.schema_version != REPLICATION_STATE_VERSION || !valid_remote_name(
        state.remote.as_str(),
    ) || !valid_branch_name(state.branch.as_str()) || !known_commit || (
    state.consecutive_failures == 0) != state.retry_at.is_none() {
        return Err(RemoteReplicationError::InvalidState);
    }
    Ok(())
}

/// State of a destination to which nothing was pushed yet.
pub open spec fn unreplicated(remote: Seq<char>, branch: Seq<char>, fingerprint: Revision) -> ReplicationView {
    ReplicationState {
        schema_version: REPLICATION_STATE_VERSION,
        remote,
        branch,
        remote_fingerprint: fingerprint,
        replicated_commit: None,
        consecutive_failures: 0,
        retry_at: None,
    }
}

/// One bounded asynchronous replication step.
#[derive(Clone, Copy, Debug, PartialEq, Eq, Structural)]
pub enum RemoteReplicationOutcome {
    /// The last confirmed remote commit already equals the official commit.
    UpToDate {
        /// The official commit.
        commit: ObjectId,
    },
    /// The official commit was successfully pushed and recorded.
    Pushed {
        /// The official commit.
        commit: ObjectId,
    },
    /// A previous failure still suppresses attempts until the durable deadline.
    Deferred {
        /// The official commit.
        commit: ObjectId,
        /// Failures in a row.
        consecutive_failures: u32,
        /// The durable deadline.
        retry_at: Timestamp,
    },
    /// This attempt failed and a later retry was durably scheduled.
    Failed {
        /// The official commit.
        commit: ObjectId,
        /// Failures in a row.
        consecutive_failures: u32,
        /// The durable deadline.
        retry_at: Timestamp,
    },
    /// Shutdown cancelled an in-flight push before it changed durable state.
    Cancelled,
}

/// How a replication step goes on once the destination is known.
#[derive(Debug)]
pub enum ReplicationStep<S = ReplicationState, T = String> {
    /// Nothing is to be pushed.
    Done(RemoteReplicationOutcome),
    /// The official commit is to be pushed.
    Push {
        /// The state to go on from.
        state: S,
        /// What is pushed where.
        refspec: T,
    },
}

impl View for ReplicationStep {
    type V = ReplicationStep<ReplicationView, Seq<char>>;

    open spec fn view(&self) -> ReplicationStep<ReplicationView, Seq<char>> {
        match *self {
            ReplicationStep::Done(outcome) => ReplicationStep::Done(outcome),
            ReplicationStep::Push { state, refspec } => ReplicationStep::Push {
                state: state@,
                refspec: refspec@,
            },
        }
    }
}

/// The state that counts for a destination: what is stored, unless it is of another destination.
pub open spec fn current_state(
    remote: Seq<char>,
    branch: Seq<char>,
    fingerprint: Revision,
    stored: Option<ReplicationView>,
) -> ReplicationView {
    match stored {
        Some(state) => if state.remote == remote && state.branch == branch
            && state.remote_fingerprint == fingerprint {
            state
        } else {
            unreplicated(remote, branch, fingerprint)
        },
        None => unreplicated(remote, branch, fingerprint),
    }
}

/// What a replication step does before a push.
pub open spec fn replication_step(
    remote: Seq<char>,
    branch: Seq<char>,
    fingerprint: Revision,
    stored: Option<ReplicationView>,
    target: ObjectId,
    now: Timestamp,
) -> Result<ReplicationStep<ReplicationView, Seq<char>>, ReplicationFailure> {
    if stored matches Some(state) && !is_state(state) {
        Err(RemoteReplicationError::InvalidState)
    } else {
        let state = current_state(remote, branch, fingerprint, stored);
        if state.replicated_commit == Some(target.spec_text()) {
            Ok(ReplicationStep::Done(RemoteReplicationOutcome::UpToDate { commit: target }))
        } else if state.retry_at matches Some(retry_at) && now.instant() < retry_at.instant() {
            Ok(
                ReplicationStep::Done(
                    RemoteReplicationOutcome::Deferred {
                        commit: target,
                        consecutive_failures: state.consecutive_failures,
                        retry_at: state.retry_at->0,
                    },
                ),
            )
        } else {
            Ok(
                ReplicationStep::Push {
                    state,
                    refspec: target.spec_text() + ":refs/heads/"@ + branch,
                },
            )
        }
    }
}

/// Decides what a replication step does before a push, from the stored state.
pub fn begin_replication(
    policy: &RemoteReplicationPolicy,
    fingerprint: Revision,
    stored: Option<ReplicationState>,
    target: ObjectId,
    now: &Timestamp,
) -> (result: Result<ReplicationStep, RemoteReplicationError>)
    ensures
        (match result {
            Ok(step) => Ok(step@),
            Err(error) => Err(error@),
        }) == replication_step(
            policy.spec_remote(),
            policy.spec_branch(),
            fingerprint,
            match stored {
                Some(state) => Some(state@),
                None => None,
            },
            target,
            *now,
        ),
{
    let fresh = ReplicationState {
        schema_version: REPLICATION_STATE_VERSION,
        remote: policy.remote.clone(),
        branch: policy.branch.clone(),
        remote_fingerprint: fingerprint,
        replicated_commit: None,
        consecutive_failures: 0,
        retry_at: None,
    };
    let state = match stored {
        Some(state) => {
            match validate_state(&state) {
                Err(error) => {
                    return Err(error);
                },
                Ok(()) => {},
            }
            if same_text(state.remote.as_str(), policy.remote.as_str()) && same_text(
                state.branch.as_str(),
                policy.branch.as_str(),
            ) && state.remote_fingerprint == fingerprint {
                state
            } else {
                fresh
            }
        },
        None => fresh,
    };
    let text = target.text();
    let replicated = match &state.replicated_commit {
        Some(commit) => same_text(commit.as_str(), text.as_str()),
        None => false,
    };
    if replicated {
        return Ok(ReplicationStep::Done(RemoteReplicationOutcome::UpToDate { commit: target }));
    }
    if let Some(retry_at) = state.retry_at {
        if retry_at.after(now) {
            return Ok(
                ReplicationStep::Done(
                    RemoteReplicationOutcome::Deferred {
                        commit: target,
                        consecutive_failures: state.consecutive_failures,
                        retry_at,
                    },
                ),
            );
        }
    }
    let refspec = join3(text.as_str(), ":refs/heads/", policy.branch.as_str());
    Ok(ReplicationStep::Push { state, refspec })
}

/// What came of a push.
#[derive(Debug)]
pub enum PushResult {
    /// The remote took it.
    Accepted,
    /// The remote or Git refused it, or it did not end in time; it ended at this time.
    Refused {
        /// The time at which the attempt ended.
        completed_at: Timestamp,
    },
    /// It was cancelled.
    Cancelled,
    /// It could not be made.
    Failed(GitTransactionError),
}

/// The outcome of a push and the state to write before it is reported, if any.
pub open spec fn push_settled(
    initial: u128,
    maximum: u128,
    state: ReplicationView,
    target: ObjectId,
    result: PushResult,
) -> Result<(RemoteReplicationOutcome, Option<ReplicationView>), ReplicationFailure> {
    match result {
        PushResult::Accepted => Ok(
            (
                RemoteReplicationOutcome::Pushed { commit: target },
                Some(
                    ReplicationState {
                        replicated_commit: Some(target.spec_text()),
                        consecutive_failures: 0,
                        retry_at: None,
                        ..state
                    },
                ),
            ),
        ),
        PushResult::Refused { completed_at } => {
            let failures = if state.consecutive_failures < u32::MAX {
                (state.consecutive_failures + 1) as u32
            } else {
                u32::MAX
            };
            let delay = backoff(initial, maximum, failures) as int;
            if !completed_at.reaches(delay) {
                Err(RemoteReplicationError::InvalidPolicy("backoff"@))
            } else {
                let retry_at = completed_at.plus(delay);
                Ok(
                    (
                        RemoteReplicationOutcome::Failed {
                            commit: target,
                            consecutive_failures: failures,
                            retry_at,
                        },
                        Some(
                            ReplicationState {
                                consecutive_failures: failures,
                                retry_at: Some(retry_at),
                                ..state
                            },
                        ),
                    ),
                )
            }
        },
        PushResult::Cancelled => Ok((RemoteReplicationOutcome::Cancelled, None)),
        PushResult::Failed(error) => Err(RemoteReplicationError::Repository(error@)),
    }
}

/// Decides the outcome of a push and the state to write before it is reported.
pub fn settle_push(
    policy: &RemoteReplicationPolicy,
    state: ReplicationState,
    target: ObjectId,
    result: PushResult,
) -> (settled: Result<
    (RemoteReplicationOutcome, Option<ReplicationState>),
    RemoteReplicationError,
>)
    ensures
        (match settled {
            Ok((outcome, Some(state))) => Ok((outcome, Some(state@))),
            Ok((outcome, None)) => Ok((outcome, None)),
            Err(error) => Err(error@),
        }) == push_settled(
            policy.spec_initial_backoff(),
            policy.spec_maximum_backoff(),
            state@,
            target,
            result,
        ),
{
    match result {
        PushResult::Accepted => {
            let mut next = state;
            next.replicated_commit = Some(target.text());
            next.consecutive_failures = 0;
            next.retry_at = None;
            Ok((RemoteReplicationOutcome::Pushed { commit: target }, Some(next)))
        },
        PushResult::Refused { completed_at } => {
            let failures: u32 = state.consecutive_failures.saturating_add(1);
            let delay: u128 = retry_delay(policy, failures);
            match completed_at.checked_add(delay as i128) {
                None => Err(RemoteReplicationError::InvalidPolicy("backoff")),
                Some(retry_at) => {
                    let mut next = state;
                    next.consecutive_failures = failures;
                    next.retry_at = Some(retry_at);
                    Ok(
                        (
                            RemoteReplicationOutcome::Failed {
                                commit: target,
                                consecutive_failures: failures,
                                retry_at,
                            },
                            Some(next),
                        ),
                    )
                },
            }
        },
        PushResult::Cancelled => Ok((RemoteReplicationOutcome::Cancelled, None)),
        PushResult::Failed(error) => Err(RemoteReplicationError::Repository(error)),
    }
}

/// Whether a result says that Git was cancelled.
pub open spec fn was_cancelled(
    result: Result<RemoteReplicationOutcome, ReplicationFailure>,
) -> bool {
    result matches Err(RemoteReplicationError::Repository(GitTransactionError::GitCancelled))
}

/// What a replication step gives once its lock is released: a failure to release it outweighs a
/// cancellation and a success, but no other failure.
pub open spec fn replication_finished(
    result: Result<RemoteReplicationOutcome, ReplicationFailure>,
    unlock: Result<(), ReplicationFailure>,
) -> Result<RemoteReplicationOutcome, ReplicationFailure> {
    match (result, unlock) {
        (Ok(_), Err(failure)) => Err(failure),
        (Ok(outcome), Ok(())) => Ok(outcome),
        (Err(failure), Err(unlock_failure)) => if was_cancelled(result) {
            Err(unlock_failure)
        } else {
            Err(failure)
        },
        (Err(failure), Ok(())) => if was_cancelled(result) {
            Ok(RemoteReplicationOutcome::Cancelled)
        } else {
            Err(failure)
        },
    }
}

/// The view of the result of a replication step.
pub open spec fn outcome_view(
    result: Result<RemoteReplicationOutcome, RemoteReplicationError>,
) -> Result<RemoteReplicationOutcome, ReplicationFailure> {
    match result {
        Ok(outcome) => Ok(outcome),
        Err(error) => Err(error@),
    }
}

/// Decides what a replication step gives once its lock is released.
pub fn finish_replication(
    result: Result<RemoteReplicationOutcome, RemoteReplicationError>,
    unlock: Result<(), RemoteReplicationError>,
) -> (finished: Result<RemoteReplicationOutcome, RemoteReplicationError>)
    ensures
        outcome_view(finished) == replication_finished(
            outcome_view(result),
            match unlock {
                Ok(()) => Ok(()),
                Err(error) => Err(error@),
            },
        ),
{
    match (result, unlock) {
        (Ok(_), Err(error)) => Err(error),
        (Ok(outcome), Ok(())) => Ok(outcome),
        (
            Err(RemoteReplicationError::Repository(GitTransactionError::GitCancelled)),
            Err(unlock_error),
        ) => Err(unlock_error),
        (Err(RemoteReplicationError::Repository(GitTransactionError::GitCancelled)), Ok(())) => Ok(
            RemoteReplicationOutcome::Cancelled,
        ),
        (Err(error), _) => Err(error),
    }
}

/// Where a push goes.
#[derive(Debug)]
pub struct ConfiguredRemote<B = Vec<u8>> {
    /// Fingerprint of the printed destinations.
    pub fingerprint: Revision,
    /// The only destination.
    pub url: B,
    /// Whether objects are named by SHA-256.
    pub sha256: bool,
}

impl View for ConfiguredRemote {
    type V = ConfiguredRemote<Seq<u8>>;

    open spec fn view(&self) -> ConfiguredRemote<Seq<u8>> {
        ConfiguredRemote { fingerprint: self.fingerprint, url: self.url@, sha256: self.sha256 }
    }
}

/// What Git prints of a configured remote.
#[derive(Debug)]
pub struct RemoteFacts {
    /// Whether it is a mirror.
    pub mirror: Vec<u8>,
    /// The push destinations; nothing if Git could not tell.
    pub urls: Option<Vec<u8>>,
    /// The object format.
    pub object_format: Vec<u8>,
}

/// Whether a byte is an ASCII control.
pub open spec fn is_control_byte(byte: u8) -> bool {
    byte < 32 || byte == 127
}

/// The only push destination in a printed list: one line without controls.
pub open spec fn single_url(output: Seq<u8>) -> Option<Seq<u8>> {
    let url = output.drop_last();
    if output.len() < 2 || output.last() != 10 || (exists|i: int|
        0 <= i < url.len() && is_control_byte(#[trigger] url[i])) {
        None
    } else {
        Some(url)
    }
}

/// Reads the only push destination in a printed list.
fn parse_single_push_url(output: &Vec<u8>) -> (result: Option<Vec<u8>>)
    ensures
        match result {
            Some(url) => single_url(output@) == Some(url@),
            None => single_url(output@) is None,
        },
{
    let count: usize = output.len();
    if count < 2 || output[count - 1] != 10 {
        return None;
    }
    let url = slice_bytes(output.as_slice(), 0, count - 1);
    assert(url@ =~= output@.drop_last());
    let mut i: usize = 0;
    while i < url.len()
        invariant
            i <= url@.len(),
            url@ == output@.drop_last(),
            forall|j: int| 0 <= j < i ==> !is_control_byte(#[trigger] url@[j]),
        decreases url@.len() - i,
    {
        if url[i] < 32 || url[i] == 127 {
            assert(is_control_byte(output@.drop_last()[i as int]));
            return None;
        }
        i += 1;
    }
    Some(url)
}

/// The bytes of `false` and a line feed.
pub open spec fn false_line() -> Seq<u8> {
    seq![102u8, 97u8, 108u8, 115u8, 101u8, 10u8]
}

/// The bytes of `sha1` and a line feed.
pub open spec fn sha1_line() -> Seq<u8> {
    seq![115u8, 104u8, 97u8, 49u8, 10u8]
}

/// The bytes of `sha256` and a line feed.
pub open spec fn sha256_line() -> Seq<u8> {
    seq![115u8, 104u8, 97u8, 50u8, 53u8, 54u8, 10u8]
}

/// The destination that a configured remote stands for: it must not be a mirror and must have one
/// push destination.
pub open spec fn destination_of(facts: RemoteFacts) -> Result<
    ConfiguredRemote<Seq<u8>>,
    ReplicationFailure,
> {
    if facts.mirror@ != false_line() {
        Err(RemoteReplicationError::InvalidPolicy("remote.mirror"@))
    } else {
        match facts.urls {
            None => Err(RemoteReplicationError::RemoteUnavailable),
            Some(urls) => if urls@.len() == 0 {
                Err(RemoteReplicationError::RemoteUnavailable)
            } else {
                match single_url(urls@) {
                    None => Err(RemoteReplicationError::InvalidPolicy("remote.pushurl"@)),
                    Some(url) => if facts.object_format@ == sha1_line()
                        || facts.object_format@ == sha256_line() {
                        Ok(
                            ConfiguredRemote {
                                fingerprint: revision_of(urls@),
                                url,
                                sha256: facts.object_format@ == sha256_line(),
                            },
                        )
                    } else {
                        Err(
                            RemoteReplicationError::Repository(
                                GitTransactionError::InvalidGitOutput,
                            ),
                        )
                    },
                }
            },
        }
    }
}

/// Reads the destination that a configured remote stands for.
pub fn configured_remote_snapshot(facts: &RemoteFacts) -> (result: Result<
    ConfiguredRemote,
    RemoteReplicationError,
>)
    ensures
        (match result {
            Ok(remote) => Ok(remote@),
            Err(error) => Err(error@),
        }) == destination_of(*facts),
{
    let plain: Vec<u8> = vec![102, 97, 108, 115, 101, 10];
    assert(plain@ =~= false_line());
    if !same_bytes(&facts.mirror, &plain) {
        return Err(RemoteReplicationError::InvalidPolicy("remote.mirror"));
    }
    let urls = match &facts.urls {
        None => {
            return Err(RemoteReplicationError::RemoteUnavailable);
        },
        Some(urls) => urls,
    };
    if urls.len() == 0 {
        return Err(RemoteReplicationError::RemoteUnavailable);
    }
    let fingerprint = revision(urls.as_slice());
    let url = match parse_single_push_url(urls) {
        None => {
            return Err(RemoteReplicationError::InvalidPolicy("remote.pushurl"));
        },
        Some(url) => url,
    };
    let short: Vec<u8> = vec![115, 104, 97, 49, 10];
    let long: Vec<u8> = vec![115, 104, 97, 50, 53, 54, 10];
    assert(short@ =~= sha1_line());
    assert(long@ =~= sha256_line());
    let sha256 = same_bytes(&facts.object_format, &long);
    if !sha256 && !same_bytes(&facts.object_format, &short) {
        return Err(RemoteReplicationError::Repository(GitTransactionError::InvalidGitOutput));
    }
    Ok(ConfiguredRemote { fingerprint, url, sha256 })
}

/// A pushed commit is not pushed again: once it is recorded, the next step to the same destination
/// finds it up to date.
pub proof fn pushed_commits_stay_pushed(
    remote: Seq<char>,
    branch: Seq<char>,
    fingerprint: Revision,
    state: ReplicationView,
    target: ObjectId,
    initial: u128,
    maximum: u128,
    now: Timestamp,
)
    requires
        is_state(state),
        is_object_id(target.spec_text()),
        current_state(remote, branch, fingerprint, Some(state)) == state,
    ensures
        push_settled(initial, maximum, state, target, PushResult::Accepted) matches Ok(
            (outcome, Some(written)),
        ) && is_state(written) && replication_step(
            remote,
            branch,
            fingerprint,
            Some(written),
            target,
            now,
        ) == Ok::<ReplicationStep<ReplicationView, Seq<char>>, ReplicationFailure>(
            ReplicationStep::Done(RemoteReplicationOutcome::UpToDate { commit: target }),
        ),
{
}

/// A failed push is deferred, across restarts too: until the recorded time the next step to the
/// same destination makes no attempt, and from then on it makes one.
pub proof fn failed_pushes_are_deferred(
    remote: Seq<char>,
    branch: Seq<char>,
    fingerprint: Revision,
    state: ReplicationView,
    target: ObjectId,
    initial: u128,
    maximum: u128,
    completed_at: Timestamp,
    now: Timestamp,
)
    requires
        is_state(state),
        state.replicated_commit != Some(target.spec_text()),
        current_state(remote, branch, fingerprint, Some(state)) == state,
        completed_at.reaches(
            backoff(
                initial,
                maximum,
                if state.consecutive_failures < u32::MAX {
                    (state.consecutive_failures + 1) as u32
                } else {
                    u32::MAX
                },
            ) as int,
        ),
    ensures
        push_settled(
            initial,
            maximum,
            state,
            target,
            PushResult::Refused { completed_at },
        ) matches Ok((RemoteReplicationOutcome::Failed { commit, consecutive_failures, retry_at }, Some(written)))
            && is_state(written) && (replication_step(
            remote,
            branch,
            fingerprint,
            Some(written),
            target,
            now,
        ) matches Ok(step) && (if now.instant() < retry_at.instant() {
            step == ReplicationStep::<ReplicationView, Seq<char>>::Done(
                RemoteReplicationOutcome::Deferred { commit, consecutive_failures, retry_at },
            )
        } else {
            step is Push
        })),
{
}

} // verus!
