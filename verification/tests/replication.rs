use agent_knowledge::clock::{Timestamp, LAST_NANOSECOND};
use agent_knowledge::git_error::GitTransactionError;
use agent_knowledge::git_text::ObjectId;
use agent_knowledge::ids::{revision, Revision};
use agent_knowledge::replication::{
    begin_replication, configured_remote_snapshot, finish_replication, retry_delay, settle_push,
    valid_branch_name, valid_remote_name, validate_state, ConfiguredRemote, PushResult,
    RemoteFacts, RemoteReplicationError, RemoteReplicationOutcome, RemoteReplicationPolicy,
    ReplicationState, ReplicationStep, MAXIMUM_SIGNED_SPAN, REPLICATION_STATE_VERSION,
};
use agent_knowledge::repository::validate_local_git_config;
use serde_json::Value;

const SECOND: i128 = 1_000_000_000;

fn at(seconds: i128) -> Timestamp {
    match Timestamp::new(seconds * SECOND, 0) {
        Some(timestamp) => timestamp,
        None => panic!("fixture time must be held"),
    }
}

fn object(value: u64) -> ObjectId {
    match ObjectId::parse(&format!("{value:040x}")) {
        Some(id) => id,
        None => panic!("fixture object must parse"),
    }
}

fn policy() -> RemoteReplicationPolicy {
    match RemoteReplicationPolicy::new(
        "fictional-backup",
        "main",
        5_000_000_000,
        10_000_000_000,
        40_000_000_000,
        &at(0),
        true,
    ) {
        Ok(policy) => policy,
        Err(error) => panic!("fixture policy must be valid: {}", error.message()),
    }
}

fn copy(state: &ReplicationState) -> ReplicationState {
    ReplicationState {
        schema_version: state.schema_version,
        remote: state.remote.clone(),
        branch: state.branch.clone(),
        remote_fingerprint: state.remote_fingerprint,
        replicated_commit: state.replicated_commit.clone(),
        consecutive_failures: state.consecutive_failures,
        retry_at: state.retry_at,
    }
}

/// A repository, its remote and the state kept between steps.
struct Fixture {
    policy: RemoteReplicationPolicy,
    facts: RemoteFacts,
    keys: Vec<u8>,
    official: ObjectId,
    reachable: bool,
    cancelled: bool,
    stored: Option<ReplicationState>,
    pushed: Vec<(Vec<u8>, String)>,
}

impl Fixture {
    fn new() -> Self {
        Fixture {
            policy: policy(),
            facts: RemoteFacts {
                mirror: b"false\n".to_vec(),
                urls: Some(b"/fictional/remote\n".to_vec()),
                object_format: b"sha1\n".to_vec(),
            },
            keys: b"core.repositoryformatversion\0core.filemode\0core.bare\0".to_vec(),
            official: object(1),
            reachable: true,
            cancelled: false,
            stored: None,
            pushed: Vec::new(),
        }
    }

    fn remote(&self) -> Result<ConfiguredRemote, RemoteReplicationError> {
        match validate_local_git_config(&self.keys, b"true\n", b"true\n") {
            Ok(()) => configured_remote_snapshot(&self.facts),
            Err(error) => Err(RemoteReplicationError::Repository(error)),
        }
    }

    fn attempt(
        &mut self,
        now: Timestamp,
        completed_at: Timestamp,
    ) -> Result<RemoteReplicationOutcome, RemoteReplicationError> {
        if self.cancelled {
            return Err(RemoteReplicationError::Repository(GitTransactionError::GitCancelled));
        }
        let remote = self.remote()?;
        let stored = self.stored.as_ref().map(copy);
        let step =
            begin_replication(&self.policy, remote.fingerprint, stored, self.official, &now)?;
        let (state, refspec) = match step {
            ReplicationStep::Done(outcome) => return Ok(outcome),
            ReplicationStep::Push { state, refspec } => (state, refspec),
        };
        let result = if self.reachable {
            self.pushed.push((remote.url, refspec));
            PushResult::Accepted
        } else {
            PushResult::Refused { completed_at }
        };
        let (outcome, written) = settle_push(&self.policy, state, self.official, result)?;
        if let Some(written) = written {
            self.stored = Some(written);
        }
        Ok(outcome)
    }

    fn controlled(
        &mut self,
        now: Timestamp,
        completed_at: Timestamp,
    ) -> Result<RemoteReplicationOutcome, RemoteReplicationError> {
        let result = self.attempt(now, completed_at);
        finish_replication(result, Ok(()))
    }

    fn replicate(&mut self, now: Timestamp) -> RemoteReplicationOutcome {
        self.replicate_completed_at(now, now)
    }

    fn replicate_completed_at(
        &mut self,
        now: Timestamp,
        completed_at: Timestamp,
    ) -> RemoteReplicationOutcome {
        match self.controlled(now, completed_at) {
            Ok(outcome) => outcome,
            Err(error) => panic!("replication step must complete: {}", error.message()),
        }
    }
}

#[test]
fn rejects_a_mirror_remote_before_replication_starts() {
    let mut fixture = Fixture::new();
    fixture.facts.mirror = b"true\n".to_vec();
    assert!(matches!(
        fixture.remote(),
        Err(RemoteReplicationError::InvalidPolicy("remote.mirror"))
    ));
}

#[test]
fn rejects_multiple_push_destinations() {
    let mut fixture = Fixture::new();
    fixture.facts.urls = Some(b"/fictional/remote\n/fictional/second-remote\n".to_vec());
    assert!(matches!(
        fixture.remote(),
        Err(RemoteReplicationError::InvalidPolicy("remote.pushurl"))
    ));
}

#[test]
fn rejects_a_remote_changed_to_mirror_mode_before_a_push() {
    let mut fixture = Fixture::new();
    assert!(fixture.remote().is_ok());
    fixture.facts.mirror = b"true\n".to_vec();
    assert!(matches!(
        fixture.controlled(at(0), at(0)),
        Err(RemoteReplicationError::InvalidPolicy("remote.mirror"))
    ));
    assert!(fixture.pushed.is_empty());
}

#[test]
fn rejects_unsafe_local_git_configuration_added_after_open() {
    let mut fixture = Fixture::new();
    assert!(fixture.remote().is_ok());
    fixture.keys.extend_from_slice(b"credential.helper\0");
    assert!(matches!(
        fixture.controlled(at(0), at(0)),
        Err(RemoteReplicationError::Repository(GitTransactionError::UnsafeGitConfig))
    ));
}

#[test]
fn push_uses_the_validated_destination_and_isolated_config_snapshot() {
    let mut fixture = Fixture::new();
    let Ok(remote) = fixture.remote() else {
        panic!("remote snapshot must be captured");
    };
    fixture.facts.urls = Some(b"/fictional/replacement-remote\n".to_vec());
    assert_eq!(remote.url, b"/fictional/remote".to_vec());
    assert!(!remote.sha256);
    let Ok(ReplicationStep::Push { refspec, .. }) =
        begin_replication(&fixture.policy, remote.fingerprint, None, fixture.official, &at(0))
    else {
        panic!("a new commit must be pushed");
    };
    assert_eq!(refspec, format!("{}:refs/heads/main", fixture.official.text()));
}

#[test]
fn pushes_each_new_official_commit_and_records_success() {
    let mut fixture = Fixture::new();
    let initial = fixture.official;
    assert_eq!(
        fixture.replicate(at(0)),
        RemoteReplicationOutcome::Pushed { commit: initial }
    );
    assert_eq!(
        fixture.pushed,
        vec![(
            b"/fictional/remote".to_vec(),
            format!("{}:refs/heads/main", initial.text())
        )]
    );
    assert_eq!(
        fixture.replicate(at(0)),
        RemoteReplicationOutcome::UpToDate { commit: initial }
    );
    assert_eq!(fixture.pushed.len(), 1);

    let advanced = object(2);
    fixture.official = advanced;
    assert_ne!(advanced, initial);
    assert_eq!(
        fixture.replicate(at(0)),
        RemoteReplicationOutcome::Pushed { commit: advanced }
    );
    assert_eq!(fixture.pushed.len(), 2);
}

#[test]
fn repointed_remote_invalidates_the_confirmed_commit_cache() {
    let mut fixture = Fixture::new();
    let commit = fixture.official;
    assert!(matches!(
        fixture.replicate(at(0)),
        RemoteReplicationOutcome::Pushed { .. }
    ));
    fixture.facts.urls = Some(b"/fictional/replacement-remote\n".to_vec());
    assert_eq!(
        fixture.replicate(at(0)),
        RemoteReplicationOutcome::Pushed { commit }
    );
    assert_eq!(fixture.pushed[1].0, b"/fictional/replacement-remote".to_vec());
}

#[test]
fn persists_backoff_across_restart_and_recovers_after_remote_returns() {
    let mut fixture = Fixture::new();
    fixture.reachable = false;
    let commit = fixture.official;
    assert_eq!(
        fixture.replicate_completed_at(at(0), at(30)),
        RemoteReplicationOutcome::Failed {
            commit,
            consecutive_failures: 1,
            retry_at: at(40),
        }
    );
    assert_eq!(
        fixture.replicate(at(40)),
        RemoteReplicationOutcome::Failed {
            commit,
            consecutive_failures: 2,
            retry_at: at(60),
        }
    );
    let mut restarted = Fixture::new();
    restarted.stored = fixture.stored.take();
    assert_eq!(
        restarted.replicate(at(59)),
        RemoteReplicationOutcome::Deferred {
            commit,
            consecutive_failures: 2,
            retry_at: at(60),
        }
    );
    assert_eq!(
        restarted.replicate(at(60)),
        RemoteReplicationOutcome::Pushed { commit }
    );
    assert_eq!(restarted.pushed.len(), 1);
}

fn fingerprint(text: &str) -> Option<Revision> {
    let digits = text.strip_prefix("sha256:")?;
    let mut bytes = [0u8; 32];
    for (index, byte) in bytes.iter_mut().enumerate() {
        *byte = u8::from_str_radix(digits.get(2 * index..2 * index + 2)?, 16).ok()?;
    }
    Some(Revision::from_bytes(bytes))
}

/// Reads a stored state that has no retry time.
fn decode(text: &str) -> Result<ReplicationState, RemoteReplicationError> {
    let Ok(value) = serde_json::from_str::<Value>(text) else {
        return Err(RemoteReplicationError::InvalidState);
    };
    let word = |name: &str| value.get(name).and_then(Value::as_str).map(str::to_owned);
    let number = |name: &str| value.get(name).and_then(Value::as_u64);
    let (Some(version), Some(remote), Some(branch), Some(digest), Some(failures)) = (
        number("schema_version"),
        word("remote"),
        word("branch"),
        word("remote_fingerprint").as_deref().and_then(fingerprint),
        number("consecutive_failures"),
    ) else {
        return Err(RemoteReplicationError::InvalidState);
    };
    Ok(ReplicationState {
        schema_version: version as u16,
        remote,
        branch,
        remote_fingerprint: digest,
        replicated_commit: word("replicated_commit"),
        consecutive_failures: failures as u32,
        retry_at: None,
    })
}

fn replicate_text(text: &str) -> Result<RemoteReplicationOutcome, RemoteReplicationError> {
    let mut fixture = Fixture::new();
    fixture.stored = Some(decode(text)?);
    let outcome = fixture.controlled(at(0), at(0));
    assert!(outcome.is_ok() || fixture.pushed.is_empty());
    outcome
}

#[test]
fn rejects_corrupted_durable_state_without_pushing() {
    assert!(matches!(
        replicate_text("{\"schema_version\":1}\n"),
        Err(RemoteReplicationError::InvalidState)
    ));
}

fn stored_text(version: u16, commit: &str, failures: u32) -> String {
    format!(
        "{{\"schema_version\":{version},\"remote\":\"other\",\"branch\":\"main\",\"remote_fingerprint\":\"sha256:{}\",\"replicated_commit\":\"{commit}\",\"consecutive_failures\":{failures},\"retry_at\":null}}\n",
        "00".repeat(32)
    )
}

#[test]
fn validates_corrupted_state_before_resetting_a_changed_destination() {
    assert!(matches!(
        replicate_text(&stored_text(1, "invalid", 0)),
        Err(RemoteReplicationError::InvalidState)
    ));
    assert!(matches!(
        replicate_text(&stored_text(2, &object(1).text(), 0)),
        Err(RemoteReplicationError::InvalidState)
    ));
    assert!(matches!(
        replicate_text(&stored_text(1, &object(1).text(), 1)),
        Err(RemoteReplicationError::InvalidState)
    ));
    assert!(matches!(
        replicate_text(&stored_text(1, &object(1).text(), 0)),
        Ok(RemoteReplicationOutcome::Pushed { commit }) if commit == object(1)
    ));
}

#[test]
fn cancellation_does_not_create_retry_state() {
    let mut fixture = Fixture::new();
    fixture.cancelled = true;
    assert!(matches!(
        fixture.controlled(at(0), at(0)),
        Ok(RemoteReplicationOutcome::Cancelled)
    ));
    assert!(fixture.stored.is_none());

    fixture.cancelled = false;
    let Ok(remote) = fixture.remote() else {
        panic!("remote must be configured");
    };
    let Ok(ReplicationStep::Push { state, .. }) =
        begin_replication(&fixture.policy, remote.fingerprint, None, fixture.official, &at(0))
    else {
        panic!("a new commit must be pushed");
    };
    assert!(matches!(
        settle_push(&fixture.policy, state, fixture.official, PushResult::Cancelled),
        Ok((RemoteReplicationOutcome::Cancelled, None))
    ));
}

#[test]
fn unlock_failure_takes_precedence_over_pre_push_cancellation() {
    let cancellation =
        Err(RemoteReplicationError::Repository(GitTransactionError::GitCancelled));
    let unlock = Err(RemoteReplicationError::Io("fictional unlock failure".to_owned()));
    assert!(matches!(
        finish_replication(cancellation, unlock),
        Err(RemoteReplicationError::Io(error)) if error == "fictional unlock failure"
    ));
}

#[test]
fn other_failures_take_precedence_over_an_unlock_failure() {
    let unlock = || Err(RemoteReplicationError::Io("fictional unlock failure".to_owned()));
    assert!(matches!(
        finish_replication(Err(RemoteReplicationError::InvalidState), unlock()),
        Err(RemoteReplicationError::InvalidState)
    ));
    assert!(matches!(
        finish_replication(
            Ok(RemoteReplicationOutcome::UpToDate { commit: object(1) }),
            unlock()
        ),
        Err(RemoteReplicationError::Io(_))
    ));
}

#[test]
fn retry_deadline_overflow_is_reported_without_panicking() {
    let mut fixture = Fixture::new();
    fixture.reachable = false;
    let Some(maximum) = Timestamp::new(LAST_NANOSECOND - 999_999_999, 0) else {
        panic!("maximum fixture timestamp must be held");
    };
    assert_eq!(maximum.calendar_fields(), (9999, 12, 31, 23, 59, 59));
    assert!(matches!(
        fixture.controlled(maximum, maximum),
        Err(RemoteReplicationError::InvalidPolicy("backoff"))
    ));
}

#[test]
fn retry_delays_double_up_to_their_limit() {
    let policy = policy();
    assert_eq!(retry_delay(&policy, 0), 10_000_000_000);
    assert_eq!(retry_delay(&policy, 1), 10_000_000_000);
    assert_eq!(retry_delay(&policy, 2), 20_000_000_000);
    assert_eq!(retry_delay(&policy, 3), 40_000_000_000);
    assert_eq!(retry_delay(&policy, 4), 40_000_000_000);
    assert_eq!(retry_delay(&policy, u32::MAX), 40_000_000_000);
}

fn refusal(
    remote: &str,
    branch: &str,
    timeout: u128,
    initial: u128,
    maximum: u128,
    instants: bool,
) -> Option<&'static str> {
    match RemoteReplicationPolicy::new(
        remote, branch, timeout, initial, maximum, &at(0), instants,
    ) {
        Err(RemoteReplicationError::InvalidPolicy(field)) => Some(field),
        Err(error) => panic!("only the policy may be refused: {}", error.message()),
        Ok(policy) => {
            assert_eq!(policy.remote(), remote);
            assert_eq!(policy.branch(), branch);
            assert_eq!(policy.timeout(), timeout);
            None
        }
    }
}

#[test]
fn policies_are_bounded() {
    assert_eq!(refusal("backup", "main", 1, 1, 1, true), None);
    assert_eq!(refusal("-backup", "main", 1, 1, 1, true), Some("remote"));
    assert_eq!(refusal("backup", "-main", 1, 1, 1, true), Some("branch"));
    assert_eq!(refusal("backup", "main", 0, 1, 1, true), Some("timing"));
    assert_eq!(refusal("backup", "main", 1, 0, 1, true), Some("timing"));
    assert_eq!(refusal("backup", "main", 1, 2, 1, true), Some("timing"));
    assert_eq!(
        refusal("backup", "main", 1, 1, MAXIMUM_SIGNED_SPAN + 1, true),
        Some("timing")
    );
    assert_eq!(
        refusal("backup", "main", 1, 1, MAXIMUM_SIGNED_SPAN, true),
        Some("timing")
    );
    assert_eq!(refusal("backup", "main", 1, 1, 1, false), Some("timing"));
    assert!(valid_remote_name("fictional-backup"));
    assert!(!valid_remote_name(""));
    assert!(!valid_remote_name("two words"));
    assert!(valid_branch_name("release/main"));
    assert!(!valid_branch_name("main..old"));
    assert!(!valid_branch_name("main.lock"));
    assert!(!valid_branch_name(""));
}

#[test]
fn destinations_are_fingerprinted_as_printed() {
    let fixture = Fixture::new();
    let Ok(remote) = fixture.remote() else {
        panic!("remote must be configured");
    };
    assert_eq!(remote.fingerprint, revision(b"/fictional/remote\n"));
    let mut fixture = Fixture::new();
    fixture.facts.object_format = b"sha256\n".to_vec();
    assert!(matches!(fixture.remote(), Ok(remote) if remote.sha256));
    fixture.facts.object_format = b"sha512\n".to_vec();
    assert!(matches!(
        fixture.remote(),
        Err(RemoteReplicationError::Repository(GitTransactionError::InvalidGitOutput))
    ));
    fixture.facts.urls = None;
    assert!(matches!(
        fixture.remote(),
        Err(RemoteReplicationError::RemoteUnavailable)
    ));
}

#[test]
fn retry_state_needs_both_failures_and_a_deadline() {
    let mut state = ReplicationState {
        schema_version: REPLICATION_STATE_VERSION,
        remote: "backup".to_owned(),
        branch: "main".to_owned(),
        remote_fingerprint: revision(b""),
        replicated_commit: None,
        consecutive_failures: 1,
        retry_at: Some(at(0)),
    };
    assert!(validate_state(&state).is_ok());
    state.consecutive_failures = 0;
    assert!(validate_state(&state).is_err());
    state.retry_at = None;
    assert!(validate_state(&state).is_ok());
    assert_eq!(
        RemoteReplicationError::Busy.message(),
        "another remote replication attempt is active"
    );
}
