//! Git worktree transaction and publication failures.
use crate::apply::{apply_message, ApplyError, ApplyFailure};
use crate::git_text::ObjectId;
use crate::ids::{ulid_text, BatchId, RequestId};
use crate::text::{join2, join3, join4, join5};
use vstd::prelude::*;
use vstd::string::*;

verus! {

/// A Git worktree transaction or publication failure.
#[allow(inconsistent_fields)]
#[derive(Debug)]
pub enum GitTransactionError<T = String, A = ApplyError> {
    /// The installed Git predates required fsync configuration support.
    UnsupportedGitVersion {
        /// Version string reported by Git.
        found: T,
    },
    /// The caller's trial static-site build rejected the prepared worktree.
    TrialBuildFailed,
    /// The trial build changed its supposedly read-only input worktree.
    TrialBuildMutatedWorktree,
    /// The configured author identity was empty or contained control characters.
    InvalidIdentity,
    /// The official branch name was empty or contained control characters.
    InvalidOfficialBranch,
    /// The configured repository was not bare.
    RepositoryNotBare,
    /// The canonical worktree belonged to a different Git repository.
    CanonicalWorktreeMismatch,
    /// The canonical worktree did not have the official branch checked out.
    CanonicalWorktreeBranchMismatch,
    /// Repository, canonical content, and disposable work paths overlapped.
    OverlappingRepositoryPaths,
    /// Another process holds the repository-scoped writer lock.
    RepositoryBusy(T),
    /// The repository was already bound to another writer configuration.
    RepositoryBindingMismatch,
    /// Repository-local Git configuration contained a non-allowlisted key.
    UnsafeGitConfig,
    /// A required directory was a link or non-directory entry.
    InvalidDirectory(T),
    /// The batch contained no claims.
    EmptyBatch,
    /// Claims were duplicated, unordered, or owned by another batch.
    InvalidClaims,
    /// The canonical worktree contains changes outside Repository Worker control.
    CanonicalWorktreeDirty,
    /// The deterministic batch worktree path already existed.
    WorktreeAlreadyExists(T),
    /// A durable transaction journal was malformed or exceeded its bound.
    InvalidJournal,
    /// A durable transaction journal did not describe the supplied batch.
    JournalMismatch,
    /// A required durable transaction journal was absent.
    JournalMissing,
    /// A transaction journal was not in the committed state.
    JournalState,
    /// Queue reconciliation or release activation has not completed.
    PublicationIncomplete,
    /// A committed transaction must be recovered before it can be reconciled.
    TransactionRequiresRecovery {
        /// Batch whose durable result must be recovered.
        batch_id: BatchId,
    },
    /// Another durable transaction must be reconciled before a new batch.
    UnfinishedTransaction,
    /// A request failed for a non-isolatable reason.
    Apply {
        /// Request being applied.
        request_id: RequestId,
        /// Underlying apply failure.
        source: A,
    },
    /// Live queue ownership validation failed.
    Queue(T),
    /// Active release validation failed.
    Release(T),
    /// The official branch changed after the transaction pinned its base.
    OfficialBranchChanged {
        /// Pinned base commit.
        expected: ObjectId,
        /// Commit found at publish time.
        actual: ObjectId,
    },
    /// The official ref advanced, but the canonical worktree could not be synchronized.
    CanonicalWorktreeSync {
        /// New official commit.
        commit: ObjectId,
        /// What the Git failure is reported as.
        source: T,
    },
    /// Publication completed but disposable transaction cleanup failed.
    PostCommitCleanup {
        /// New official commit.
        commit: ObjectId,
        /// What the cleanup failure is reported as.
        source: T,
    },
    /// Git returned malformed machine-readable output.
    InvalidGitOutput,
    /// A transaction attempted a physical content deletion.
    PhysicalDeletion,
    /// A Git subprocess failed.
    GitCommand {
        /// The shown arguments, without the executable and the repository path.
        arguments: T,
        /// Bounded standard error.
        stderr: T,
    },
    /// A Git subprocess was cancelled.
    GitCancelled,
    /// A Git subprocess did not end in time.
    GitDeadlineExceeded,
    /// A filesystem or subprocess I/O operation failed.
    Io(T),
}

/// A failure with its texts as sequences.
pub type GitFailure = GitTransactionError<Seq<char>, ApplyFailure>;

impl View for GitTransactionError {
    type V = GitFailure;

    open spec fn view(&self) -> GitFailure {
        match *self {
            GitTransactionError::UnsupportedGitVersion { found } => GitTransactionError::UnsupportedGitVersion { found: found@ },
            GitTransactionError::TrialBuildFailed => GitTransactionError::TrialBuildFailed,
            GitTransactionError::TrialBuildMutatedWorktree => GitTransactionError::TrialBuildMutatedWorktree,
            GitTransactionError::InvalidIdentity => GitTransactionError::InvalidIdentity,
            GitTransactionError::InvalidOfficialBranch => GitTransactionError::InvalidOfficialBranch,
            GitTransactionError::RepositoryNotBare => GitTransactionError::RepositoryNotBare,
            GitTransactionError::CanonicalWorktreeMismatch => GitTransactionError::CanonicalWorktreeMismatch,
            GitTransactionError::CanonicalWorktreeBranchMismatch => GitTransactionError::CanonicalWorktreeBranchMismatch,
            GitTransactionError::OverlappingRepositoryPaths => GitTransactionError::OverlappingRepositoryPaths,
            GitTransactionError::RepositoryBusy(path) => GitTransactionError::RepositoryBusy(path@),
            GitTransactionError::RepositoryBindingMismatch => GitTransactionError::RepositoryBindingMismatch,
            GitTransactionError::UnsafeGitConfig => GitTransactionError::UnsafeGitConfig,
            GitTransactionError::InvalidDirectory(path) => GitTransactionError::InvalidDirectory(path@),
            GitTransactionError::EmptyBatch => GitTransactionError::EmptyBatch,
            GitTransactionError::InvalidClaims => GitTransactionError::InvalidClaims,
            GitTransactionError::CanonicalWorktreeDirty => GitTransactionError::CanonicalWorktreeDirty,
            GitTransactionError::WorktreeAlreadyExists(path) => GitTransactionError::WorktreeAlreadyExists(path@),
            GitTransactionError::InvalidJournal => GitTransactionError::InvalidJournal,
            GitTransactionError::JournalMismatch => GitTransactionError::JournalMismatch,
            GitTransactionError::JournalMissing => GitTransactionError::JournalMissing,
            GitTransactionError::JournalState => GitTransactionError::JournalState,
            GitTransactionError::PublicationIncomplete => GitTransactionError::PublicationIncomplete,
            GitTransactionError::TransactionRequiresRecovery { batch_id } => GitTransactionError::TransactionRequiresRecovery { batch_id },
            GitTransactionError::UnfinishedTransaction => GitTransactionError::UnfinishedTransaction,
            GitTransactionError::Apply { request_id, source } => GitTransactionError::Apply { request_id, source: source@ },
            GitTransactionError::Queue(reason) => GitTransactionError::Queue(reason@),
            GitTransactionError::Release(reason) => GitTransactionError::Release(reason@),
            GitTransactionError::OfficialBranchChanged { expected, actual } => GitTransactionError::OfficialBranchChanged { expected, actual },
            GitTransactionError::CanonicalWorktreeSync { commit, source } => GitTransactionError::CanonicalWorktreeSync { commit, source: source@ },
            GitTransactionError::PostCommitCleanup { commit, source } => GitTransactionError::PostCommitCleanup { commit, source: source@ },
            GitTransactionError::InvalidGitOutput => GitTransactionError::InvalidGitOutput,
            GitTransactionError::PhysicalDeletion => GitTransactionError::PhysicalDeletion,
            GitTransactionError::GitCommand { arguments, stderr } => GitTransactionError::GitCommand { arguments: arguments@, stderr: stderr@ },
            GitTransactionError::GitCancelled => GitTransactionError::GitCancelled,
            GitTransactionError::GitDeadlineExceeded => GitTransactionError::GitDeadlineExceeded,
            GitTransactionError::Io(reason) => GitTransactionError::Io(reason@),
        }
    }
}

/// What a failure is reported as.
pub open spec fn git_message(failure: GitFailure) -> Seq<char> {
    match failure {
        GitTransactionError::UnsupportedGitVersion { found } => "Git 2.36 or newer is required; found `"@ + found + "`"@,
        GitTransactionError::TrialBuildFailed => "trial static-site build failed"@,
        GitTransactionError::TrialBuildMutatedWorktree => "trial static-site build changed its input worktree"@,
        GitTransactionError::InvalidIdentity => "Git identity values must be nonempty and contain no controls"@,
        GitTransactionError::InvalidOfficialBranch => "official Git branch is invalid"@,
        GitTransactionError::RepositoryNotBare => "Git repository must be bare"@,
        GitTransactionError::CanonicalWorktreeMismatch => "canonical worktree belongs to another Git repository"@,
        GitTransactionError::CanonicalWorktreeBranchMismatch => "canonical worktree must have the official branch checked out"@,
        GitTransactionError::OverlappingRepositoryPaths => "Git repository, canonical worktree, and work root must not overlap"@,
        GitTransactionError::RepositoryBusy(path) => "repository writer lock `"@ + path + "` is already held"@,
        GitTransactionError::RepositoryBindingMismatch => "repository is bound to a different writer configuration"@,
        GitTransactionError::UnsafeGitConfig => "repository-local Git configuration is not allowlisted"@,
        GitTransactionError::InvalidDirectory(path) => "`"@ + path + "` must be a real directory"@,
        GitTransactionError::EmptyBatch => "Git transaction batch must not be empty"@,
        GitTransactionError::InvalidClaims => "Git transaction claims are unordered or inconsistently owned"@,
        GitTransactionError::CanonicalWorktreeDirty => "canonical worktree contains uncommitted changes"@,
        GitTransactionError::WorktreeAlreadyExists(path) => "transaction worktree `"@ + path + "` exists"@,
        GitTransactionError::InvalidJournal => "transaction journal is invalid"@,
        GitTransactionError::JournalMismatch => "transaction journal does not match the supplied batch"@,
        GitTransactionError::JournalMissing => "transaction journal is missing"@,
        GitTransactionError::JournalState => "transaction journal is not ready for finalization"@,
        GitTransactionError::PublicationIncomplete => "queue reconciliation and active release do not complete this transaction"@,
        GitTransactionError::TransactionRequiresRecovery { batch_id } => "transaction batch `"@ + ulid_text(batch_id.value) + "` requires journal recovery"@,
        GitTransactionError::UnfinishedTransaction => "another durable transaction is not finalized"@,
        GitTransactionError::Apply { request_id, source } => "request `"@ + ulid_text(request_id.value) + "` could not be isolated: "@ + apply_message(source),
        GitTransactionError::Queue(reason) => "claim ownership validation failed: "@ + reason,
        GitTransactionError::Release(reason) => "active release validation failed: "@ + reason,
        GitTransactionError::OfficialBranchChanged { expected, actual } => "official branch changed after pinning `"@ + expected.spec_text() + "`; found `"@ + actual.spec_text() + "`"@,
        GitTransactionError::CanonicalWorktreeSync { commit, source } => "official commit `"@ + commit.spec_text() + "` advanced but canonical worktree sync failed: "@ + source,
        GitTransactionError::PostCommitCleanup { commit, source } => "official commit `"@ + commit.spec_text() + "` advanced but transaction cleanup failed: "@ + source,
        GitTransactionError::InvalidGitOutput => "Git returned invalid output"@,
        GitTransactionError::PhysicalDeletion => "Git transaction attempted a physical content deletion"@,
        GitTransactionError::GitCommand { arguments, stderr } => "Git command "@ + arguments + " failed: "@ + stderr,
        GitTransactionError::GitCancelled => "Git command was cancelled"@,
        GitTransactionError::GitDeadlineExceeded => "Git command deadline expired"@,
        GitTransactionError::Io(reason) => "Git transaction I/O failed: "@ + reason,
    }
}

impl GitTransactionError {
    /// What the failure is reported as.
    pub fn message(&self) -> (text: String)
        ensures
            text@ == git_message(self@),
    {
        let text = match self {
            GitTransactionError::UnsupportedGitVersion { found } => join3("Git 2.36 or newer is required; found `", found.as_str(), "`"),
            GitTransactionError::TrialBuildFailed => "trial static-site build failed".to_owned(),
            GitTransactionError::TrialBuildMutatedWorktree => "trial static-site build changed its input worktree".to_owned(),
            GitTransactionError::InvalidIdentity => "Git identity values must be nonempty and contain no controls".to_owned(),
            GitTransactionError::InvalidOfficialBranch => "official Git branch is invalid".to_owned(),
            GitTransactionError::RepositoryNotBare => "Git repository must be bare".to_owned(),
            GitTransactionError::CanonicalWorktreeMismatch => "canonical worktree belongs to another Git repository".to_owned(),
            GitTransactionError::CanonicalWorktreeBranchMismatch => "canonical worktree must have the official branch checked out".to_owned(),
            GitTransactionError::OverlappingRepositoryPaths => "Git repository, canonical worktree, and work root must not overlap".to_owned(),
            GitTransactionError::RepositoryBusy(path) => join3("repository writer lock `", path.as_str(), "` is already held"),
            GitTransactionError::RepositoryBindingMismatch => "repository is bound to a different writer configuration".to_owned(),
            GitTransactionError::UnsafeGitConfig => "repository-local Git configuration is not allowlisted".to_owned(),
            GitTransactionError::InvalidDirectory(path) => join3("`", path.as_str(), "` must be a real directory"),
            GitTransactionError::EmptyBatch => "Git transaction batch must not be empty".to_owned(),
            GitTransactionError::InvalidClaims => "Git transaction claims are unordered or inconsistently owned".to_owned(),
            GitTransactionError::CanonicalWorktreeDirty => "canonical worktree contains uncommitted changes".to_owned(),
            GitTransactionError::WorktreeAlreadyExists(path) => join3("transaction worktree `", path.as_str(), "` exists"),
            GitTransactionError::InvalidJournal => "transaction journal is invalid".to_owned(),
            GitTransactionError::JournalMismatch => "transaction journal does not match the supplied batch".to_owned(),
            GitTransactionError::JournalMissing => "transaction journal is missing".to_owned(),
            GitTransactionError::JournalState => "transaction journal is not ready for finalization".to_owned(),
            GitTransactionError::PublicationIncomplete => "queue reconciliation and active release do not complete this transaction".to_owned(),
            GitTransactionError::TransactionRequiresRecovery { batch_id } => join3("transaction batch `", batch_id.text().as_str(), "` requires journal recovery"),
            GitTransactionError::UnfinishedTransaction => "another durable transaction is not finalized".to_owned(),
            GitTransactionError::Apply { request_id, source } => join4("request `", request_id.text().as_str(), "` could not be isolated: ", source.message().as_str()),
            GitTransactionError::Queue(reason) => join2("claim ownership validation failed: ", reason.as_str()),
            GitTransactionError::Release(reason) => join2("active release validation failed: ", reason.as_str()),
            GitTransactionError::OfficialBranchChanged { expected, actual } => join5("official branch changed after pinning `", expected.text().as_str(), "`; found `", actual.text().as_str(), "`"),
            GitTransactionError::CanonicalWorktreeSync { commit, source } => join4("official commit `", commit.text().as_str(), "` advanced but canonical worktree sync failed: ", source.as_str()),
            GitTransactionError::PostCommitCleanup { commit, source } => join4("official commit `", commit.text().as_str(), "` advanced but transaction cleanup failed: ", source.as_str()),
            GitTransactionError::InvalidGitOutput => "Git returned invalid output".to_owned(),
            GitTransactionError::PhysicalDeletion => "Git transaction attempted a physical content deletion".to_owned(),
            GitTransactionError::GitCommand { arguments, stderr } => join4("Git command ", arguments.as_str(), " failed: ", stderr.as_str()),
            GitTransactionError::GitCancelled => "Git command was cancelled".to_owned(),
            GitTransactionError::GitDeadlineExceeded => "Git command deadline expired".to_owned(),
            GitTransactionError::Io(reason) => join2("Git transaction I/O failed: ", reason.as_str()),
        };
        assert(text@ =~= git_message(self@));
        text
    }
}

} // verus!
