use std::collections::BTreeMap;

use agent_knowledge::apply::{AppliedFileMove, ApplyError, ErrorCode};
use agent_knowledge::batch::{Action, BatchSettings, Purpose, Reply, Transaction};
use agent_knowledge::changes::staged_stats;
use agent_knowledge::commit_message::CommitFacts;
use agent_knowledge::finalize::{finalize_batch, ActiveCommit, FinalFacts};
use agent_knowledge::git_error::GitTransactionError;
use agent_knowledge::git_output::{parse_git_version, supported_version};
use agent_knowledge::git_text::ObjectId;
use agent_knowledge::ids::{revision, BatchId, DocumentId, RequestId, Revision};
use agent_knowledge::journal::{
    BatchCommitOutcome, Claim, ClaimToken, JournalClaim, JournalFailure, JournalState,
    StoredTransactionJournal, TransactionJournal,
};
use agent_knowledge::opening::{
    ensure_supported_git, open, BindingPlace, ConfigFacts, Observation, OpenFacts, OpenSettings,
    Opening, ResolvedPaths,
};
use agent_knowledge::path::ContentPath;
use agent_knowledge::repository::{
    ensure_binding, is_registered_worktree, nonoverlapping_paths, removable_worktree,
    unfinished_transaction, validate_binding, validate_local_git_config, worktree_name,
    DirectoryBinding, GitIdentity, LayoutFacts, RepositoryTransaction, StoredBinding,
};
use ulid::Ulid;

const FIRST_REQUEST_ID: &str = "01K00000000000000000000001";
const SECOND_REQUEST_ID: &str = "01K00000000000000000000002";
const DOCUMENT_ID: &str = "01K00000000000000000000003";
const BATCH_ID: &str = "01K00000000000000000000004";
const SECOND_BATCH_ID: &str = "01K00000000000000000000005";

fn number(text: &str) -> u128 {
    match Ulid::from_string(text) {
        Ok(ulid) => ulid.0,
        Err(error) => panic!("fixture identity must parse: {error}"),
    }
}

fn batch_id() -> BatchId {
    BatchId { value: number(BATCH_ID) }
}

fn request_id(text: &str) -> RequestId {
    RequestId { value: number(text) }
}

fn object(value: u64) -> ObjectId {
    match ObjectId::parse(&format!("{value:040x}")) {
        Some(id) => id,
        None => panic!("fixture object must parse"),
    }
}

fn path(text: &str) -> ContentPath {
    ContentPath::from_components(text.split('/').map(str::to_owned).collect())
}

fn moved(source: &str, destination: &str) -> AppliedFileMove {
    AppliedFileMove { source: path(source), destination: path(destination) }
}

fn claim(request: &str, batch: BatchId, sequence: u64, title: &str) -> Claim {
    Claim {
        token: ClaimToken { request_id: request_id(request), batch_id: batch, attempt: 1 },
        sequence: Some(sequence),
        title: title.to_owned(),
    }
}

fn settings(claims: Vec<Claim>, batch: BatchId) -> BatchSettings {
    BatchSettings {
        batch_id: batch,
        claims,
        claim_failures: 0,
        worktree: "work/worktrees/fictional".to_owned(),
    }
}

fn one_claim(title: &str) -> Vec<Claim> {
    vec![claim(FIRST_REQUEST_ID, batch_id(), 1, title)]
}

#[derive(Clone, Copy, PartialEq)]
enum Trial {
    Accept,
    Refuse,
    Mutate,
}

#[derive(Clone, Copy, PartialEq)]
enum Announcement {
    Accept,
    Interrupt,
    Compete,
}

/// A repository in memory.
struct Repository {
    official: ObjectId,
    commits: BTreeMap<String, (ObjectId, String)>,
    canonical_status: Vec<u8>,
    residue: Vec<u8>,
    residue_record: Vec<u8>,
    residue_object: Vec<u8>,
    synced: Option<ObjectId>,
    journal: Option<TransactionJournal>,
    reference: Option<ObjectId>,
    worktree: bool,
    queue: Revision,
    refused: BTreeMap<usize, ApplyError>,
    trial: Trial,
    announcement: Announcement,
    next: u64,
}

impl Repository {
    fn new() -> Self {
        Repository {
            official: object(1),
            commits: BTreeMap::new(),
            canonical_status: Vec::new(),
            residue: Vec::new(),
            residue_record: Vec::new(),
            residue_object: Vec::new(),
            synced: None,
            journal: None,
            reference: None,
            worktree: false,
            queue: revision(b"fictional queue"),
            refused: BTreeMap::new(),
            trial: Trial::Accept,
            announcement: Announcement::Accept,
            next: 100,
        }
    }

    fn fresh(&mut self) -> ObjectId {
        self.next += 1;
        object(self.next)
    }

    fn stored(&self) -> Option<StoredTransactionJournal> {
        self.journal.as_ref().map(TransactionJournal::stored)
    }

    fn facts_of(&self, commit: ObjectId) -> CommitFacts {
        let (parents, message) = match self.commits.get(&commit.text()) {
            Some((parent, message)) => {
                (format!("{} {}\n", commit.text(), parent.text()), message.clone())
            }
            None => (format!("{}\n", commit.text()), "Initialize fictional knowledge\n".to_owned()),
        };
        CommitFacts {
            resolved: commit,
            parents: parents.into_bytes(),
            message: message.into_bytes(),
        }
    }

    fn reply(&mut self, settings: &BatchSettings, action: Action) -> Reply {
        match action {
            Action::EnsureReady => Reply::Done,
            Action::ListJournals => Reply::Names(
                self.journal
                    .iter()
                    .map(|journal| format!("{}.json", journal.batch_id.text()))
                    .collect(),
            ),
            Action::ReadJournal => Reply::Journal(self.stored()),
            Action::IdentifyQueue => Reply::Identity(self.queue),
            Action::ResolveOfficial => Reply::Object(self.official),
            Action::InspectClaims => {
                Reply::Ownership(settings.claims.iter().map(|_| None).collect())
            }
            Action::RemoveWorktree => {
                self.worktree = false;
                Reply::Done
            }
            Action::ResolveTransactionRef => Reply::Reference(self.reference),
            Action::InspectPreparing { commit } => {
                let facts = self.facts_of(commit);
                Reply::Trailers {
                    parents: facts.parents,
                    trailer: format!("{}\n", settings.batch_id.text()).into_bytes(),
                }
            }
            Action::DeleteTransactionRef { commit } => {
                assert_eq!(self.reference, Some(commit));
                self.reference = None;
                Reply::Done
            }
            Action::RemoveJournal => {
                self.journal = None;
                Reply::Done
            }
            Action::InspectCanonical => Reply::Output(self.canonical_status.clone()),
            Action::InspectWorktree => Reply::Exists(self.worktree),
            Action::WriteJournal(journal) => {
                self.journal = Some(journal);
                Reply::Done
            }
            Action::AddWorktree { base } => {
                assert_eq!(base, self.official);
                self.worktree = true;
                Reply::Done
            }
            Action::ResolveTree => Reply::Object(self.fresh()),
            Action::ApplyClaim { index } => match self.refused.remove(&index) {
                Some(error) => Reply::Refused(error),
                None => Reply::Applied(Vec::new()),
            },
            Action::StageTree => Reply::Object(self.fresh()),
            Action::ResetWorktree { .. } => Reply::Done,
            Action::ReadDifference { .. } => Reply::Output(
                format!(
                    "A\0projects/fictional-project/experiments/2026-07-31-{DOCUMENT_ID}/index.md\0"
                )
                .into_bytes(),
            ),
            Action::TrialBuild => {
                if self.trial == Trial::Refuse {
                    Reply::Rejected
                } else {
                    Reply::Done
                }
            }
            Action::InspectPrepared => Reply::Prepared {
                unstaged: Vec::new(),
                visible: if self.trial == Trial::Mutate {
                    b"generated.html\0".to_vec()
                } else {
                    Vec::new()
                },
                ignored: Vec::new(),
                tree: format!("{}\n", object(self.next).text()).into_bytes(),
            },
            Action::CommitTree { base, message, .. } => {
                let commit = self.fresh();
                self.commits.insert(commit.text(), (base, message));
                Reply::Object(commit)
            }
            Action::CreateTransactionRef { commit } => {
                self.reference = Some(commit);
                Reply::Done
            }
            Action::InspectCommit { commit } => Reply::Commit(self.facts_of(commit)),
            Action::BeforePublish { base, .. } => match self.announcement {
                Announcement::Accept => Reply::Done,
                Announcement::Interrupt => Reply::Failed(GitTransactionError::InvalidGitOutput),
                Announcement::Compete => {
                    assert_eq!(base, self.official);
                    self.official = object(77);
                    Reply::Done
                }
            },
            Action::ValidateStorage => Reply::Done,
            Action::LockCanonical => Reply::Done,
            Action::CompareAndSwap { base, commit } => {
                if self.official == base {
                    self.official = commit;
                    Reply::Done
                } else {
                    Reply::SwapRefused {
                        actual: self.official,
                        arguments: "update-ref".to_owned(),
                        stderr: "refused".to_owned(),
                    }
                }
            }
            Action::InspectResidue => {
                Reply::Untracked { visible: self.residue.clone(), ignored: Vec::new() }
            }
            Action::InspectFile { .. } => Reply::File {
                record: self.residue_record.clone(),
                object: self.residue_object.clone(),
            },
            Action::SyncCanonical { commit } => {
                self.synced = Some(commit);
                Reply::Done
            }
            Action::Finish(_) => unreachable!(),
        }
    }

    fn run(
        &mut self,
        settings: &BatchSettings,
        purpose: Purpose,
    ) -> Result<Option<BatchCommitOutcome>, GitTransactionError> {
        let (mut transaction, mut action) = Transaction::begin(settings, purpose);
        for _ in 0..500 {
            if let Action::Finish(result) = action {
                return result;
            }
            let reply = self.reply(settings, action);
            let (next, following) = transaction.step(settings, reply);
            transaction = next;
            action = following;
        }
        panic!("a transaction must end")
    }

    fn finalize(&mut self, outcome: &BatchCommitOutcome) -> Result<(), GitTransactionError> {
        let commit = match outcome {
            BatchCommitOutcome::Committed { commit, .. } => Some(*commit),
            BatchCommitOutcome::NoChanges { .. } => None,
        };
        let facts = FinalFacts {
            journal: Ok(self.stored()),
            queue_identity: Ok(self.queue),
            commit: Ok(self.facts_of(commit.unwrap_or(self.official))),
            reconciled: true,
            release: Ok(match commit {
                Some(commit) => ActiveCommit::Active(commit),
                None => ActiveCommit::NoStore,
            }),
            official: Ok(self.official),
            worktree: Ok(self.worktree),
            reference: Ok(self.reference),
        };
        finalize_batch(batch_id(), facts, outcome)?;
        self.journal = None;
        Ok(())
    }
}

#[test]
fn commits_successes_and_isolates_a_conflicting_request() {
    let mut repository = Repository::new();
    let base = repository.official;
    let settings = settings(
        vec![
            claim(FIRST_REQUEST_ID, batch_id(), 1, "Create a fictional experiment"),
            claim(SECOND_REQUEST_ID, batch_id(), 2, "Create a conflicting experiment"),
        ],
        batch_id(),
    );
    repository.refused.insert(
        1,
        ApplyError::DocumentIdConflict { document_id: DocumentId { value: number(DOCUMENT_ID) } },
    );
    let Ok(Some(outcome)) = repository.run(&settings, Purpose::Apply) else {
        panic!("mixed batch must commit healthy requests");
    };
    let BatchCommitOutcome::Committed { commit, successful, failures } = &outcome else {
        panic!("one healthy request must produce a commit");
    };
    assert_ne!(*commit, base);
    assert_eq!(successful.len(), 1);
    assert_eq!(successful[0].request_id, request_id(FIRST_REQUEST_ID));
    assert_eq!(failures.len(), 1);
    assert_eq!(failures[0].error_code(), ErrorCode::DocumentIdConflict);
    assert_eq!(failures[0].token().request_id, request_id(SECOND_REQUEST_ID));
    assert_eq!(repository.synced, Some(*commit));
    let message = repository.commits[&commit.text()].1.clone();
    assert!(message.contains("knowledge snapshot: 1 changes"));
    assert!(message.contains(&format!("Knowledge-Request: {FIRST_REQUEST_ID}")));
    assert!(!message.contains(&format!("Knowledge-Request: {SECOND_REQUEST_ID}")));
    assert!(!repository.worktree);
    assert!(repository.journal.is_some());

    repository.synced = None;
    assert!(matches!(
        repository.run(&settings, Purpose::Recover),
        Ok(Some(BatchCommitOutcome::Committed { commit: recovered, .. })) if recovered == *commit
    ));
    assert_eq!(repository.synced, Some(*commit));
    if let Err(error) = repository.finalize(&outcome) {
        panic!("durably reconciled batch must finalize: {}", error.message());
    }
    assert!(repository.journal.is_none());
}

fn missing_document() -> ApplyError {
    ApplyError::DocumentNotFound { document_id: DocumentId { value: number(DOCUMENT_ID) } }
}

#[test]
fn all_request_failures_leave_the_official_commit_unchanged() {
    let mut repository = Repository::new();
    let base = repository.official;
    let settings = settings(one_claim("Update a missing document"), batch_id());
    repository.refused.insert(0, missing_document());
    let Ok(Some(outcome)) = repository.run(&settings, Purpose::Apply) else {
        panic!("missing document must be isolated");
    };
    assert!(matches!(
        &outcome,
        BatchCommitOutcome::NoChanges { failures }
            if failures.len() == 1 && failures[0].error_code() == ErrorCode::DocumentNotFound
    ));
    assert_eq!(repository.official, base);
    assert!(!repository.worktree);
    assert!(repository.journal.is_some());
    assert!(matches!(
        repository.run(&settings, Purpose::Recover),
        Ok(Some(BatchCommitOutcome::NoChanges { failures }))
            if failures.len() == 1 && failures[0].error_code() == ErrorCode::DocumentNotFound
    ));
    if let Err(error) = repository.finalize(&outcome) {
        panic!("durably failed batch must finalize: {}", error.message());
    }
    assert!(repository.journal.is_none());
}

#[test]
fn no_changes_recovery_rejects_a_stale_official_base() {
    let mut repository = Repository::new();
    let base = repository.official;
    let settings = settings(one_claim("Update a missing document"), batch_id());
    repository.refused.insert(0, missing_document());
    assert!(matches!(
        repository.run(&settings, Purpose::Apply),
        Ok(Some(BatchCommitOutcome::NoChanges { .. }))
    ));
    let concurrent = object(55);
    repository.official = concurrent;
    assert!(matches!(
        repository.run(&settings, Purpose::Recover),
        Err(GitTransactionError::OfficialBranchChanged { expected, actual })
            if expected == base && actual == concurrent
    ));
}

#[test]
fn rejects_a_request_timestamp_after_durable_acceptance() {
    let mut repository = Repository::new();
    let settings = settings(one_claim("Create a future fictional experiment"), batch_id());
    repository.refused.insert(0, ApplyError::RequestCreatedAfterAcceptance);
    assert!(matches!(
        repository.run(&settings, Purpose::Apply),
        Ok(Some(BatchCommitOutcome::NoChanges { failures }))
            if failures.len() == 1 && failures[0].error_code() == ErrorCode::InvalidRequest
    ));
}

#[test]
fn trial_build_failure_keeps_the_official_commit_unchanged() {
    let mut repository = Repository::new();
    let base = repository.official;
    let settings = settings(one_claim("Create a build-breaking fictional experiment"), batch_id());
    repository.trial = Trial::Refuse;
    assert!(matches!(
        repository.run(&settings, Purpose::Apply),
        Err(GitTransactionError::TrialBuildFailed)
    ));
    assert_eq!(repository.official, base);
    assert!(repository.journal.is_some());
    assert!(repository.worktree);

    assert!(matches!(repository.run(&settings, Purpose::Abort), Ok(None)));
    assert!(repository.journal.is_none());
    assert!(!repository.worktree);
    assert_eq!(repository.official, base);
}

#[test]
fn trial_build_cannot_change_the_tree_that_will_be_committed() {
    let mut repository = Repository::new();
    let base = repository.official;
    let settings = settings(one_claim("Create a fictional experiment"), batch_id());
    repository.trial = Trial::Mutate;
    assert!(matches!(
        repository.run(&settings, Purpose::Apply),
        Err(GitTransactionError::TrialBuildMutatedWorktree)
    ));
    assert_eq!(repository.official, base);
}

/// What the opening of one fixture observes.
struct Fixture {
    keys: Vec<u8>,
    filemode: Vec<u8>,
    top_level: bool,
    worktree: &'static str,
    work_root: &'static str,
    branch: &'static str,
    repository_binding: Option<Vec<u8>>,
    work_root_binding: Option<Vec<u8>>,
}

const KEYS: &[u8] = b"core.repositoryformatversion\0core.filemode\0core.bare\0";

impl Fixture {
    fn new() -> Self {
        Fixture {
            keys: KEYS.to_vec(),
            filemode: b"true\n".to_vec(),
            top_level: true,
            worktree: "fictional/content",
            work_root: "fictional/work",
            branch: "main",
            repository_binding: None,
            work_root_binding: None,
        }
    }

    fn binding(&self, name: &str, inode: u64) -> DirectoryBinding {
        DirectoryBinding { path: name.as_bytes().to_vec(), device: 7, inode }
    }

    fn open(&mut self) -> Result<String, GitTransactionError> {
        let settings = OpenSettings {
            git_directory: "fictional/repository".to_owned(),
            canonical_worktree: self.worktree.to_owned(),
            work_root: self.work_root.to_owned(),
            official_branch: self.branch.to_owned(),
        };
        let mut facts = OpenFacts {
            version: None,
            git_directory: None,
            branch_name: false,
            configuration: None,
            canonical_worktree: None,
            work_root: None,
            layout: None,
            paths: None,
            directories: None,
            repository_binding: None,
            work_root_binding: None,
        };
        let stored = |bytes: &Option<Vec<u8>>| match bytes {
            Some(bytes) => StoredBinding::Bytes(bytes.clone()),
            None => StoredBinding::Missing,
        };
        for _ in 0..20 {
            match open(&settings, &facts)? {
                Opening::Observe(Observation::Version) => {
                    facts.version = Some(b"git version 2.43.0\n".to_vec());
                }
                Opening::Observe(Observation::GitDirectory) => facts.git_directory = Some(true),
                Opening::Observe(Observation::BranchName) => facts.branch_name = true,
                Opening::Observe(Observation::Configuration) => {
                    facts.configuration = Some(ConfigFacts {
                        keys: self.keys.clone(),
                        bare: b"true\n".to_vec(),
                        filemode: self.filemode.clone(),
                    });
                }
                Opening::Observe(Observation::CanonicalWorktree) => {
                    facts.canonical_worktree = Some(true);
                }
                Opening::Observe(Observation::WorkRoot) => facts.work_root = Some(true),
                Opening::Observe(Observation::Layout) => {
                    facts.layout = Some(LayoutFacts {
                        bare: b"true\n".to_vec(),
                        inside: b"true\n".to_vec(),
                        top_level: self.top_level,
                        common_directory: true,
                        symbolic_head: format!("refs/heads/{}\n", self.branch).into_bytes(),
                    });
                }
                Opening::Observe(Observation::Paths) => {
                    facts.paths = Some(ResolvedPaths {
                        git_directory: path("fictional/repository"),
                        canonical_worktree: path(self.worktree),
                        work_root: path(self.work_root),
                    });
                }
                Opening::Observe(Observation::Directories) => {
                    facts.directories = Some(vec![
                        self.binding("fictional/repository", 1),
                        self.binding(self.worktree, 2),
                        self.binding(self.work_root, 3),
                    ]);
                }
                Opening::Observe(Observation::RepositoryBinding) => {
                    facts.repository_binding = Some(stored(&self.repository_binding));
                }
                Opening::Observe(Observation::WorkRootBinding) => {
                    facts.work_root_binding = Some(stored(&self.work_root_binding));
                }
                Opening::Bind { place: BindingPlace::Repository, binding } => {
                    self.repository_binding = Some(binding.clone());
                    facts.repository_binding = Some(StoredBinding::Bytes(binding));
                }
                Opening::Bind { place: BindingPlace::WorkRoot, binding } => {
                    self.work_root_binding = Some(binding.clone());
                    facts.work_root_binding = Some(StoredBinding::Bytes(binding));
                }
                Opening::Opened { official_ref } => return Ok(official_ref),
            }
        }
        panic!("an opening must end")
    }
}

#[test]
fn rejects_executable_repository_local_git_configuration() {
    let mut fixture = Fixture::new();
    fixture.keys.extend_from_slice(b"core.fsmonitor\0");
    assert!(matches!(fixture.open(), Err(GitTransactionError::UnsafeGitConfig)));
}

#[test]
fn rejects_worktree_config_and_a_second_work_root() {
    let mut fixture = Fixture::new();
    assert!(matches!(fixture.open(), Ok(official) if official == "refs/heads/main"));
    assert!(fixture.repository_binding.is_some());
    assert_eq!(fixture.repository_binding, fixture.work_root_binding);
    fixture.keys.extend_from_slice(b"remote.backup.eu.url\0");
    assert!(fixture.open().is_ok());

    let bound = fixture.work_root_binding.take();
    fixture.work_root = "fictional/other-work";
    assert!(matches!(
        fixture.open(),
        Err(GitTransactionError::RepositoryBindingMismatch)
    ));

    fixture.work_root = "fictional/work";
    fixture.work_root_binding = bound;
    fixture.worktree = "fictional/alternate-content";
    fixture.branch = "alternate";
    assert!(matches!(
        fixture.open(),
        Err(GitTransactionError::RepositoryBindingMismatch)
    ));

    fixture.worktree = "fictional/content";
    fixture.branch = "main";
    fixture.keys.extend_from_slice(b"extensions.worktreeconfig\0");
    assert!(matches!(fixture.open(), Err(GitTransactionError::UnsafeGitConfig)));
}

#[test]
fn a_missing_binding_is_stored_before_the_next_one_is_looked_at() {
    let mut fixture = Fixture::new();
    fixture.work_root_binding = Some(b"another repository".to_vec());
    assert!(matches!(
        fixture.open(),
        Err(GitTransactionError::RepositoryBindingMismatch)
    ));
    assert!(fixture.repository_binding.is_some());
    assert_eq!(fixture.work_root_binding, Some(b"another repository".to_vec()));
}

#[test]
fn rejects_a_canonical_worktree_subdirectory() {
    let mut fixture = Fixture::new();
    fixture.top_level = false;
    assert!(matches!(
        fixture.open(),
        Err(GitTransactionError::CanonicalWorktreeMismatch)
    ));
}

#[test]
fn revalidates_core_repository_configuration_under_the_writer_lock() {
    assert!(validate_local_git_config(KEYS, b"true\n", b"true\n").is_ok());
    assert!(matches!(
        validate_local_git_config(KEYS, b"true\n", b"false\n"),
        Err(GitTransactionError::UnsafeGitConfig)
    ));
}

#[test]
fn overlapping_directories_do_not_open() {
    let mut fixture = Fixture::new();
    fixture.work_root = "fictional/content/work";
    assert!(matches!(
        fixture.open(),
        Err(GitTransactionError::OverlappingRepositoryPaths)
    ));
}

#[test]
fn resumes_publication_from_a_committed_journal_after_interruption() {
    let mut repository = Repository::new();
    let base = repository.official;
    let settings = settings(one_claim("Create a recoverable fictional experiment"), batch_id());
    repository.announcement = Announcement::Interrupt;
    assert!(matches!(
        repository.run(&settings, Purpose::Apply),
        Err(GitTransactionError::InvalidGitOutput)
    ));
    assert_eq!(repository.official, base);
    assert!(repository.journal.is_some());
    assert!(repository.worktree);
    repository.announcement = Announcement::Accept;

    let names = vec![Some(format!("{BATCH_ID}.json"))];
    assert!(matches!(
        unfinished_transaction(&names, repository.stored(), repository.queue),
        Ok(Some(RepositoryTransaction::Recoverable { batch_id: found, claim_failures: 0 }))
            if found == batch_id()
    ));

    let Some(journal) = repository.journal.take() else {
        panic!("transaction journal must be stored");
    };
    let (genuine, successful, failures) = match &journal.state {
        JournalState::Committed { commit, successful, failures, .. } => {
            (*commit, successful.clone(), failures.clone())
        }
        _ => panic!("the journal must be committed"),
    };
    let with_commit = |commit: ObjectId| TransactionJournal {
        batch_id: journal.batch_id,
        queue_identity: journal.queue_identity,
        base_commit: journal.base_commit,
        claims: journal.claims.clone(),
        claim_failures: journal.claim_failures,
        state: JournalState::Committed {
            commit,
            successful: successful.clone(),
            failures: failures.clone(),
            publication_started: false,
        },
    };
    repository.journal = Some(with_commit(base));
    assert!(matches!(
        repository.run(&settings, Purpose::Recover),
        Err(GitTransactionError::JournalMismatch)
    ));
    repository.journal = Some(with_commit(genuine));

    let queue = repository.queue;
    repository.queue = revision(b"unrelated fictional queue");
    assert!(matches!(
        repository.run(&settings, Purpose::Recover),
        Err(GitTransactionError::JournalMismatch)
    ));
    repository.queue = queue;

    let Ok(Some(outcome)) = repository.run(&settings, Purpose::Recover) else {
        panic!("committed journal must resume publication");
    };
    let BatchCommitOutcome::Committed { commit, .. } = &outcome else {
        panic!("resumed transaction must retain its commit outcome");
    };
    assert_ne!(*commit, base);
    assert_eq!(repository.official, *commit);
    assert!(!repository.worktree);
    assert!(repository.journal.is_some());
    if let Err(error) = repository.finalize(&outcome) {
        panic!("resumed batch must finalize: {}", error.message());
    }
    assert!(repository.journal.is_none());
}

#[test]
fn counts_an_explicitly_moved_and_rewritten_file_without_git_rename_detection() {
    let source_bundle = "projects/fictional-a/runbooks/source";
    let destination_bundle = "projects/fictional-a/archive/runbooks/source";
    let output = format!("A\0{destination_bundle}/index.md\0D\0{source_bundle}/index.md\0");
    let stats = match staged_stats(
        output.as_bytes(),
        &vec![moved(source_bundle, destination_bundle)],
    ) {
        Ok(stats) => stats,
        Err(error) => {
            panic!("explicit move must authorize the paired deletion: {}", error.message())
        }
    };
    assert_eq!(stats.added, 0);
    assert_eq!(stats.modified, 1);
    assert_eq!(stats.deleted, 0);
    assert!(matches!(
        staged_stats(output.as_bytes(), &Vec::new()),
        Err(GitTransactionError::PhysicalDeletion)
    ));
}

#[test]
fn replays_ordered_moves_when_a_source_path_is_reused() {
    let first = "projects/fictional-a/runbooks/source";
    let second = "projects/fictional-b/runbooks/source";
    let last = "projects/fictional-c/runbooks/source";
    let output = format!("D\0{first}/index.md\0A\0{last}/index.md\0");
    let moves = vec![moved(first, second), moved(second, first), moved(first, last)];
    let stats = match staged_stats(output.as_bytes(), &moves) {
        Ok(stats) => stats,
        Err(error) => {
            panic!("ordered path reuse must remain a valid move: {}", error.message())
        }
    };
    assert_eq!(stats.added, 0);
    assert_eq!(stats.modified, 1);
    assert_eq!(stats.deleted, 0);
}

#[test]
fn a_deletion_is_explained_by_the_nearest_move_above_it() {
    let output = "D\0a/b/c.md\0D\0a/d.md\0A\0y/c.md\0A\0x/d.md\0";
    let moves = vec![moved("a", "x"), moved("a/b", "y")];
    let Ok(stats) = staged_stats(output.as_bytes(), &moves) else {
        panic!("the nearest moves must explain the deletions");
    };
    assert_eq!((stats.added, stats.modified, stats.deleted), (0, 2, 0));
    let file = vec![moved("a/b/c.md", "z/c.md"), moved("a/b", "y")];
    let Ok(stats) = staged_stats(b"D\0a/b/c.md\0A\0z/c.md\0M\0kept.md\0A\0new.md\0", &file) else {
        panic!("the move of the file itself must explain its deletion");
    };
    assert_eq!((stats.added, stats.modified, stats.deleted), (1, 2, 0));
    assert!(matches!(
        staged_stats(b"D\0a/b/c.md\0A\0x/b/c.md\0", &moves),
        Err(GitTransactionError::PhysicalDeletion)
    ));
}

#[test]
fn interrupted_reset_allows_only_exact_base_tree_residue() {
    let mut repository = Repository::new();
    let settings = settings(one_claim("Move a fictional runbook"), batch_id());
    assert!(repository.run(&settings, Purpose::Apply).is_ok());

    let source = "projects/fictional-a/runbooks/source/index.md";
    repository.residue = format!("{source}\0").into_bytes();
    repository.residue_record =
        format!("100644 blob {}\t{source}\0", object(9).text()).into_bytes();
    repository.residue_object = format!("{}\n", object(9).text()).into_bytes();
    if let Err(error) = repository.run(&settings, Purpose::Recover) {
        panic!("exact base residue must be repairable: {}", error.message());
    }
    repository.residue_object = format!("{}\n", object(10).text()).into_bytes();
    assert!(matches!(
        repository.run(&settings, Purpose::Recover),
        Err(GitTransactionError::CanonicalWorktreeDirty)
    ));
}

#[test]
fn rejects_unordered_and_duplicate_batch_claims_before_writing() {
    let mut repository = Repository::new();
    let first = || claim(FIRST_REQUEST_ID, batch_id(), 1, "Create the first fictional experiment");
    let second =
        || claim(SECOND_REQUEST_ID, batch_id(), 2, "Create the second fictional experiment");
    assert!(matches!(
        repository.run(&settings(vec![second(), first()], batch_id()), Purpose::Apply),
        Err(GitTransactionError::InvalidClaims)
    ));
    assert!(matches!(
        repository.run(&settings(vec![first(), first()], batch_id()), Purpose::Apply),
        Err(GitTransactionError::InvalidClaims)
    ));
    assert!(repository.journal.is_none());
    assert!(!repository.worktree);
    assert!(matches!(
        repository.run(&settings(Vec::new(), batch_id()), Purpose::Apply),
        Err(GitTransactionError::EmptyBatch)
    ));
}

#[test]
fn blocks_a_new_batch_until_the_published_journal_is_finalized() {
    let mut repository = Repository::new();
    let first = settings(one_claim("Create the first fictional experiment"), batch_id());
    let Ok(Some(outcome)) = repository.run(&first, Purpose::Apply) else {
        panic!("first batch must publish");
    };
    assert!(matches!(outcome, BatchCommitOutcome::Committed { .. }));

    let second_batch = BatchId { value: number(SECOND_BATCH_ID) };
    let second = settings(
        vec![claim(SECOND_REQUEST_ID, second_batch, 2, "Create the second fictional experiment")],
        second_batch,
    );
    assert!(matches!(
        repository.run(&second, Purpose::Apply),
        Err(GitTransactionError::UnfinishedTransaction)
    ));
    if let Err(error) = repository.finalize(&outcome) {
        panic!("first batch must finalize before the next publication: {}", error.message());
    }
    assert!(repository.run(&second, Purpose::Apply).is_ok());
}

#[test]
fn refuses_to_start_with_a_dirty_canonical_worktree() {
    let mut repository = Repository::new();
    let settings = settings(one_claim("Create a fictional experiment"), batch_id());
    repository.canonical_status = b"?? untracked.json\0".to_vec();
    assert!(matches!(
        repository.run(&settings, Purpose::Apply),
        Err(GitTransactionError::CanonicalWorktreeDirty)
    ));
    assert!(repository.journal.is_none());
    assert!(!repository.worktree);

    repository.canonical_status = b"!! ignored.json\0".to_vec();
    assert!(matches!(
        repository.run(&settings, Purpose::Apply),
        Err(GitTransactionError::CanonicalWorktreeDirty)
    ));
}

#[test]
fn compare_and_swap_refuses_a_concurrent_official_update() {
    let mut repository = Repository::new();
    let base = repository.official;
    let settings = settings(one_claim("Create a fictional experiment"), batch_id());
    repository.announcement = Announcement::Compete;
    assert!(matches!(
        repository.run(&settings, Purpose::Apply),
        Err(GitTransactionError::OfficialBranchChanged { expected, actual })
            if expected == base && actual != base
    ));
    assert_ne!(repository.official, base);
    assert_eq!(repository.synced, None);
}

#[test]
fn rejects_unsafe_commit_identity_values() {
    assert!(matches!(
        GitIdentity::new("Worker\nInjected", "worker@example.invalid"),
        Err(GitTransactionError::InvalidIdentity)
    ));
}

#[test]
fn parses_supported_git_version_formats() {
    assert_eq!(parse_git_version(b"git version 2.36.0\n"), Some((2, 36)));
    assert_eq!(parse_git_version(b"git version 2.55.0.windows.1\n"), Some((2, 55)));
    assert_eq!(parse_git_version(b"fictional version"), None);
    assert!(matches!(
        ensure_supported_git(b"fictional version"),
        Err(GitTransactionError::InvalidGitOutput)
    ));
    assert!(supported_version((2, 36)));
    assert!(matches!(
        ensure_supported_git(b"git version 1.9.5\n"),
        Err(GitTransactionError::UnsupportedGitVersion { .. })
    ));
}

#[test]
fn a_stale_preparing_journal_is_discarded_before_a_retry() {
    let mut repository = Repository::new();
    let settings = settings(one_claim("Create a fictional experiment"), batch_id());
    repository.journal = Some(TransactionJournal {
        batch_id: batch_id(),
        queue_identity: repository.queue,
        base_commit: repository.official,
        claims: vec![JournalClaim {
            request_id: request_id(FIRST_REQUEST_ID),
            attempt: 1,
            acceptance_sequence: 1,
        }],
        claim_failures: 0,
        state: JournalState::Preparing,
    });
    repository.worktree = true;
    assert!(matches!(
        unfinished_transaction(
            &vec![Some(format!("{BATCH_ID}.json"))],
            repository.stored(),
            repository.queue
        ),
        Ok(Some(RepositoryTransaction::Preparing { .. }))
    ));
    assert!(matches!(
        repository.run(&settings, Purpose::Apply),
        Ok(Some(BatchCommitOutcome::Committed { .. }))
    ));
}

#[test]
fn a_journaled_failure_keeps_its_code() {
    let failure =
        JournalFailure { request_id: request_id(FIRST_REQUEST_ID), error_code: ErrorCode::InvalidRequest };
    assert_eq!(failure.error_code, ErrorCode::InvalidRequest);
    let mut repository = Repository::new();
    let settings = settings(one_claim("Create a fictional experiment"), batch_id());
    repository.refused.insert(0, ApplyError::Io("disk".to_owned()));
    assert!(matches!(
        repository.run(&settings, Purpose::Apply),
        Err(GitTransactionError::Apply { request_id: found, source: ApplyError::Io(reason) })
            if found == request_id(FIRST_REQUEST_ID) && reason == "disk"
    ));
}

fn run_with(
    repository: &mut Repository,
    settings: &BatchSettings,
    purpose: Purpose,
    intercept: impl Fn(&Action) -> Option<Reply>,
) -> Result<Option<BatchCommitOutcome>, GitTransactionError> {
    let (mut transaction, mut action) = Transaction::begin(settings, purpose);
    for _ in 0..500 {
        if let Action::Finish(result) = action {
            return result;
        }
        let reply = match intercept(&action) {
            Some(reply) => reply,
            None => repository.reply(settings, action),
        };
        (transaction, action) = transaction.step(settings, reply);
    }
    panic!("a transaction must end")
}

fn disk_failure() -> Reply {
    Reply::Failed(GitTransactionError::Io("disk".to_owned()))
}

#[test]
fn leftovers_and_lost_claims_stop_a_batch_before_it_writes() {
    let settings = settings(one_claim("Create a fictional experiment"), batch_id());
    let mut repository = Repository::new();
    repository.worktree = true;
    assert!(matches!(
        repository.run(&settings, Purpose::Apply),
        Err(GitTransactionError::WorktreeAlreadyExists(found))
            if found == "work/worktrees/fictional"
    ));
    assert!(repository.journal.is_none());

    let mut repository = Repository::new();
    let lost = run_with(&mut repository, &settings, Purpose::Apply, |action| {
        matches!(action, Action::InspectClaims)
            .then(|| Reply::Ownership(vec![Some("claim was lost".to_owned())]))
    });
    assert!(matches!(lost, Err(GitTransactionError::Queue(reason)) if reason == "claim was lost"));
    assert!(repository.journal.is_none());
    assert_eq!(repository.official, object(1));
}

#[test]
fn batches_without_a_journal_are_neither_recovered_nor_undone() {
    let settings = settings(one_claim("Create a fictional experiment"), batch_id());
    for purpose in [Purpose::Recover, Purpose::Abort] {
        let mut repository = Repository::new();
        assert!(matches!(
            repository.run(&settings, purpose),
            Err(GitTransactionError::JournalMissing)
        ));
    }
    let mut repository = Repository::new();
    let outcome = BatchCommitOutcome::NoChanges { failures: Vec::new() };
    assert!(matches!(
        repository.finalize(&outcome),
        Err(GitTransactionError::JournalMissing)
    ));
}

fn committed() -> (Repository, BatchSettings, BatchCommitOutcome) {
    let mut repository = Repository::new();
    let settings = settings(one_claim("Create a fictional experiment"), batch_id());
    match repository.run(&settings, Purpose::Apply) {
        Ok(Some(outcome)) => (repository, settings, outcome),
        other => panic!("healthy batch must commit: {other:?}"),
    }
}

/// Runs a batch on trees that are made of the requests applied on them, and gives the tree that
/// is committed with the successes and the failures.
fn committed_tree(claims: Vec<Claim>, refused: &[RequestId]) -> (ObjectId, Vec<RequestId>, Vec<RequestId>) {
    let settings = settings(claims, batch_id());
    let mut repository = Repository::new();
    let mut worktree: u64 = 7;
    let mut tree: u64 = 7;
    let mut committed = None;
    let mut asked = None;
    let (mut transaction, mut action) = Transaction::begin(&settings, Purpose::Apply);
    for _ in 0..500 {
        let reply = match action {
            Action::Finish(Ok(Some(BatchCommitOutcome::Committed {
                commit,
                successful,
                failures,
            }))) => {
                assert_eq!(asked, Some(commit));
                let Some(committed) = committed else {
                    panic!("a committed batch must have committed a tree");
                };
                return (
                    committed,
                    successful.iter().map(|token| token.request_id).collect(),
                    failures.iter().map(|failure| failure.token().request_id).collect(),
                );
            }
            Action::Finish(result) => panic!("the batch must commit: {result:?}"),
            Action::ResolveTree => Reply::Object(object(tree)),
            Action::ApplyClaim { index } => {
                assert_eq!(worktree, tree);
                let request = settings.claims[index].token.request_id;
                worktree = worktree * 31 + (request.value % 1_000) as u64;
                if refused.contains(&request) {
                    Reply::Refused(missing_document())
                } else {
                    Reply::Applied(Vec::new())
                }
            }
            Action::StageTree => {
                tree = worktree;
                Reply::Object(object(tree))
            }
            Action::ResetWorktree { tree: reset } => {
                assert_eq!(reset, object(tree));
                worktree = tree;
                Reply::Done
            }
            Action::BeforePublish { base, commit } => {
                asked = Some(commit);
                repository.reply(&settings, Action::BeforePublish { base, commit })
            }
            Action::InspectPrepared => Reply::Prepared {
                unstaged: Vec::new(),
                visible: Vec::new(),
                ignored: Vec::new(),
                tree: format!("{}\n", object(worktree).text()).into_bytes(),
            },
            Action::CommitTree { tree, base, message } => {
                committed = Some(tree);
                repository.reply(&settings, Action::CommitTree { tree, base, message })
            }
            other => repository.reply(&settings, other),
        };
        (transaction, action) = transaction.step(&settings, reply);
    }
    panic!("a transaction must end")
}

#[test]
fn a_request_commits_completely_or_has_no_effect() {
    let request = |value: u128| RequestId { value };
    let claimed = |value: u128| Claim {
        token: ClaimToken { request_id: request(value), batch_id: batch_id(), attempt: 1 },
        sequence: Some(value as u64),
        title: format!("Fictional request {value}"),
    };
    let (tree, successful, failures) = committed_tree(
        vec![claimed(1), claimed(2), claimed(3), claimed(4)],
        &[request(2), request(4)],
    );
    assert_eq!(tree, object((7 * 31 + 1) * 31 + 3));
    assert_eq!(successful, vec![request(1), request(3)]);
    assert_eq!(failures, vec![request(2), request(4)]);
    assert_eq!(
        committed_tree(vec![claimed(1), claimed(3)], &[request(2), request(4)]),
        (tree, successful, Vec::new())
    );
}

#[test]
fn an_ended_batch_recovers_alike_however_often() {
    let untouched = |action: &Action| -> Option<Reply> {
        assert!(!matches!(
            action,
            Action::BeforePublish { .. } | Action::WriteJournal(_) | Action::RemoveJournal
        ));
        None
    };
    let (mut repository, settings, outcome) = committed();
    let BatchCommitOutcome::Committed { commit, .. } = outcome else {
        panic!("a healthy batch must be committed");
    };
    for _ in 0..3 {
        repository.synced = None;
        assert!(matches!(
            run_with(&mut repository, &settings, Purpose::Recover, untouched),
            Ok(Some(BatchCommitOutcome::Committed { commit: found, successful, failures }))
                if found == commit && successful.len() == 1 && failures.is_empty()
        ));
        assert_eq!(repository.synced, Some(commit));
    }

    let mut unchanged = Repository::new();
    unchanged.refused.insert(0, missing_document());
    assert!(matches!(
        unchanged.run(&settings, Purpose::Apply),
        Ok(Some(BatchCommitOutcome::NoChanges { .. }))
    ));
    for _ in 0..3 {
        assert!(matches!(
            run_with(&mut unchanged, &settings, Purpose::Recover, untouched),
            Ok(Some(BatchCommitOutcome::NoChanges { failures })) if failures.len() == 1
        ));
    }
}

#[test]
fn published_batches_are_recovered_and_never_undone() {
    let (mut repository, settings, _) = committed();
    let official = repository.official;
    assert!(matches!(
        repository.run(&settings, Purpose::Abort),
        Err(GitTransactionError::JournalState)
    ));
    assert!(matches!(
        repository.run(&settings, Purpose::Apply),
        Err(GitTransactionError::TransactionRequiresRecovery { batch_id: found })
            if found == batch_id()
    ));
    assert_eq!(repository.official, official);
    assert!(repository.journal.is_some());
}

#[test]
fn failures_after_publication_name_the_published_commit() {
    let settings = settings(one_claim("Create a fictional experiment"), batch_id());
    let mut repository = Repository::new();
    let failed = run_with(&mut repository, &settings, Purpose::Apply, |action| {
        matches!(action, Action::SyncCanonical { .. }).then(disk_failure)
    });
    match failed {
        Err(GitTransactionError::CanonicalWorktreeSync { commit, .. }) => {
            assert_eq!(commit, repository.official);
        }
        other => panic!("synchronization must fail: {other:?}"),
    }
    let Ok(Some(recovered)) = repository.run(&settings, Purpose::Recover) else {
        panic!("published batch must be recovered");
    };
    assert!(matches!(recovered, BatchCommitOutcome::Committed { commit, .. }
        if commit == repository.official && repository.synced == Some(commit)));

    let mut repository = Repository::new();
    let failed = run_with(&mut repository, &settings, Purpose::Apply, |action| {
        matches!(action, Action::DeleteTransactionRef { .. }).then(disk_failure)
    });
    match failed {
        Err(error @ GitTransactionError::PostCommitCleanup { commit, .. }) => {
            assert_eq!(commit, repository.official);
            assert!(error.message().contains(&commit.text()));
        }
        other => panic!("cleanup must fail: {other:?}"),
    }
}

#[test]
fn a_branch_that_git_does_not_advance_is_reported_as_git_says() {
    let settings = settings(one_claim("Create a fictional experiment"), batch_id());
    let mut repository = Repository::new();
    let base = repository.official;
    let refused = run_with(&mut repository, &settings, Purpose::Apply, |action| {
        matches!(action, Action::CompareAndSwap { .. }).then(|| Reply::SwapRefused {
            actual: base,
            arguments: "[\"update-ref\"]".to_owned(),
            stderr: "unable to lock".to_owned(),
        })
    });
    assert!(matches!(
        refused,
        Err(GitTransactionError::GitCommand { arguments, stderr })
            if arguments == "[\"update-ref\"]" && stderr == "unable to lock"
    ));
    assert_eq!(repository.official, base);
    assert!(repository.journal.is_some());
}

#[test]
fn journals_stay_until_everything_of_their_batch_agrees() {
    let facts = |change: fn(&mut FinalFacts)| {
        let (repository, _, outcome) = committed();
        let BatchCommitOutcome::Committed { commit, .. } = &outcome else {
            panic!("healthy batch must commit");
        };
        let mut facts = FinalFacts {
            journal: Ok(repository.stored()),
            queue_identity: Ok(repository.queue),
            commit: Ok(repository.facts_of(*commit)),
            reconciled: true,
            release: Ok(ActiveCommit::Active(*commit)),
            official: Ok(repository.official),
            worktree: Ok(repository.worktree),
            reference: Ok(repository.reference),
        };
        change(&mut facts);
        finalize_batch(batch_id(), facts, &outcome)
    };
    assert!(facts(|_| {}).is_ok());
    assert!(matches!(
        facts(|facts| facts.release = Ok(ActiveCommit::Inactive)),
        Err(GitTransactionError::PublicationIncomplete)
    ));
    assert!(matches!(
        facts(|facts| facts.release = Ok(ActiveCommit::NoStore)),
        Err(GitTransactionError::PublicationIncomplete)
    ));
    assert!(matches!(
        facts(|facts| facts.official = Ok(object(9))),
        Err(GitTransactionError::PublicationIncomplete)
    ));
    assert!(matches!(
        facts(|facts| facts.worktree = Ok(true)),
        Err(GitTransactionError::JournalState)
    ));
    assert!(matches!(
        facts(|facts| facts.reference = Ok(Some(object(9)))),
        Err(GitTransactionError::JournalState)
    ));
    assert!(matches!(
        facts(|facts| facts.reconciled = false),
        Err(GitTransactionError::JournalMismatch)
    ));
    assert!(matches!(
        facts(|facts| facts.queue_identity = Ok(Revision { high: 0, low: 0 })),
        Err(GitTransactionError::JournalMismatch)
    ));
    assert!(matches!(
        facts(|facts| {
            facts.journal = Ok(None);
            facts.official = Err(GitTransactionError::GitCancelled);
        }),
        Err(GitTransactionError::JournalMissing)
    ));
    assert!(matches!(
        facts(|facts| {
            facts.official = Err(GitTransactionError::GitCancelled);
            facts.worktree = Err(GitTransactionError::GitDeadlineExceeded);
        }),
        Err(GitTransactionError::GitCancelled)
    ));
    assert!(matches!(
        facts(|facts| {
            facts.release = Ok(ActiveCommit::Inactive);
            facts.official = Err(GitTransactionError::GitCancelled);
        }),
        Err(GitTransactionError::PublicationIncomplete)
    ));
    assert!(matches!(
        facts(|facts| {
            facts.worktree = Ok(true);
            facts.reference = Err(GitTransactionError::GitCancelled);
        }),
        Err(GitTransactionError::JournalState)
    ));
}

#[test]
fn worktrees_and_paths_around_a_batch_are_told_apart() {
    let name = worktree_name(batch_id());
    assert_eq!(name, format!("batch-{BATCH_ID}"));
    assert!(removable_worktree(true, &Some(name.clone())));
    assert!(!removable_worktree(false, &Some(name)));
    assert!(!removable_worktree(true, &Some("batch-other".to_owned())));
    assert!(!removable_worktree(true, &None));
    let listed = b"worktree /srv/repository.git\0bare\0\0worktree /srv/work/batch\0HEAD 1\0\0";
    let at = |path: &[u8], resolved: &[u8]| {
        is_registered_worktree(listed, &path.to_vec(), &resolved.to_vec())
    };
    assert!(at(b"/srv/work/batch", b"/elsewhere"));
    assert!(at(b"/elsewhere", b"/srv/work/batch"));
    assert!(!at(b"/srv/work", b"/srv/work/batch-2"));
    let apart = |git: &str, canonical: &str, work: &str| {
        nonoverlapping_paths(&path(git), &path(canonical), &path(work))
    };
    assert!(apart("srv/git", "srv/content", "srv/work"));
    assert!(!apart("srv/git", "srv/git/content", "srv/work"));
    assert!(!apart("srv/work/git", "srv/content", "srv/work"));
    assert!(!apart("srv/git", "srv/content", "srv/content"));
    let binding = b"bound".to_vec();
    assert!(validate_binding(&StoredBinding::Bytes(b"bound".to_vec()), &binding));
    assert!(!validate_binding(&StoredBinding::Bytes(b"other".to_vec()), &binding));
    assert!(!validate_binding(&StoredBinding::Missing, &binding));
    assert!(!validate_binding(&StoredBinding::Unreadable, &binding));
    assert!(matches!(ensure_binding(&StoredBinding::Missing, &binding), Ok(true)));
    assert!(matches!(
        ensure_binding(&StoredBinding::Bytes(b"bound".to_vec()), &binding),
        Ok(false)
    ));
    assert!(matches!(
        ensure_binding(&StoredBinding::Bytes(b"other".to_vec()), &binding),
        Err(GitTransactionError::RepositoryBindingMismatch)
    ));
}

#[test]
fn branches_without_a_usable_name_are_not_opened() {
    for branch in ["", "ma\u{7}in"] {
        let settings = OpenSettings {
            git_directory: "/srv/repository.git".to_owned(),
            canonical_worktree: "/srv/content".to_owned(),
            work_root: "/srv/work".to_owned(),
            official_branch: branch.to_owned(),
        };
        let facts = OpenFacts {
            version: Some(b"git version 2.50.1\n".to_vec()),
            git_directory: Some(true),
            branch_name: false,
            configuration: None,
            canonical_worktree: None,
            work_root: None,
            layout: None,
            paths: None,
            directories: None,
            repository_binding: None,
            work_root_binding: None,
        };
        assert!(matches!(
            open(&settings, &facts),
            Err(GitTransactionError::InvalidOfficialBranch)
        ));
    }
}
