//! Failures of reads of committed content.
use crate::git_error::{git_message, GitFailure, GitTransactionError};
use crate::git_text::ObjectId;
use crate::ids::{ulid_text, DocumentId};
use crate::index::{index_message, ContentIndexError, IndexFailure};
use crate::text::{decimal, decimal_text, join2, join3, join4, join5};
use vstd::prelude::*;
use vstd::string::*;

verus! {

/// Failure while opening or querying an exact committed read snapshot.
#[allow(inconsistent_fields)]
#[derive(Debug)]
pub enum CommittedReadError<T = String, G = GitTransactionError, I = ContentIndexError> {
    /// Repository validation or Git execution failed.
    Repository(G),
    /// Filesystem I/O failed outside repository validation.
    Io(T),
    /// The repository and content roots overlap.
    OverlappingPaths,
    /// The configured official branch is empty, malformed, or unsafe.
    InvalidOfficialBranch,
    /// The configured repository or content root was replaced after opening.
    StorageReplaced,
    /// The Repository Worker currently owns the writer lock.
    Busy,
    /// The canonical worktree does not represent the current official commit.
    CanonicalOutOfDate {
        /// Commit named by the official ref.
        official: ObjectId,
        /// Commit checked out in the canonical worktree.
        checked_out: ObjectId,
    },
    /// The committed content hierarchy failed validation.
    Content(I),
    /// Descriptor-contained path resolution failed.
    PinnedPath(T),
    /// No committed document has the requested permanent identity.
    DocumentNotFound {
        /// Missing permanent identity.
        document_id: DocumentId,
    },
    /// Content changed after its committed index record was created.
    ContentChanged {
        /// Affected permanent identity.
        document_id: DocumentId,
    },
    /// A Markdown body unexpectedly ceased to be UTF-8.
    InvalidMarkdownEncoding {
        /// Affected permanent identity.
        document_id: DocumentId,
    },
    /// Search text was empty after trimming.
    EmptyQuery,
    /// Search text exceeded the configured character bound.
    QueryTooLong {
        /// Maximum accepted Unicode scalar values.
        maximum: usize,
        /// Supplied Unicode scalar values.
        actual: usize,
    },
    /// A list or search operation requested no possible results.
    InvalidResultLimit,
    /// Search inspected more documents than deployment policy permits.
    SearchDocumentLimitExceeded {
        /// Configured maximum inspected documents.
        maximum: usize,
    },
    /// Search read more Markdown body bytes than deployment policy permits.
    SearchMarkdownByteLimitExceeded {
        /// Configured maximum inspected Markdown bytes.
        maximum: u64,
    },
    /// A document bundle contained more files than package policy permits.
    BundleEntryLimitExceeded {
        /// Configured maximum bundle files.
        maximum: usize,
    },
    /// A document bundle contained more bytes than package policy permits.
    BundleByteLimitExceeded {
        /// Configured maximum uncompressed file bytes.
        maximum: u64,
    },
    /// The configured absolute committed-read deadline expired.
    OperationDeadlineExceeded,
    /// A historical commit, cursor or tree entry is not acceptable.
    InvalidHistorySelector,
}

/// A failure with its texts as sequences.
pub type ReadFailure = CommittedReadError<Seq<char>, GitFailure, IndexFailure>;

impl View for CommittedReadError {
    type V = ReadFailure;

    open spec fn view(&self) -> ReadFailure {
        match *self {
            CommittedReadError::Repository(source) => CommittedReadError::Repository(source@),
            CommittedReadError::Io(reason) => CommittedReadError::Io(reason@),
            CommittedReadError::OverlappingPaths => CommittedReadError::OverlappingPaths,
            CommittedReadError::InvalidOfficialBranch => CommittedReadError::InvalidOfficialBranch,
            CommittedReadError::StorageReplaced => CommittedReadError::StorageReplaced,
            CommittedReadError::Busy => CommittedReadError::Busy,
            CommittedReadError::CanonicalOutOfDate { official, checked_out } => CommittedReadError::CanonicalOutOfDate { official, checked_out },
            CommittedReadError::Content(source) => CommittedReadError::Content(source@),
            CommittedReadError::PinnedPath(reason) => CommittedReadError::PinnedPath(reason@),
            CommittedReadError::DocumentNotFound { document_id } => CommittedReadError::DocumentNotFound { document_id },
            CommittedReadError::ContentChanged { document_id } => CommittedReadError::ContentChanged { document_id },
            CommittedReadError::InvalidMarkdownEncoding { document_id } => CommittedReadError::InvalidMarkdownEncoding { document_id },
            CommittedReadError::EmptyQuery => CommittedReadError::EmptyQuery,
            CommittedReadError::QueryTooLong { maximum, actual } => CommittedReadError::QueryTooLong { maximum, actual },
            CommittedReadError::InvalidResultLimit => CommittedReadError::InvalidResultLimit,
            CommittedReadError::SearchDocumentLimitExceeded { maximum } => CommittedReadError::SearchDocumentLimitExceeded { maximum },
            CommittedReadError::SearchMarkdownByteLimitExceeded { maximum } => CommittedReadError::SearchMarkdownByteLimitExceeded { maximum },
            CommittedReadError::BundleEntryLimitExceeded { maximum } => CommittedReadError::BundleEntryLimitExceeded { maximum },
            CommittedReadError::BundleByteLimitExceeded { maximum } => CommittedReadError::BundleByteLimitExceeded { maximum },
            CommittedReadError::OperationDeadlineExceeded => CommittedReadError::OperationDeadlineExceeded,
            CommittedReadError::InvalidHistorySelector => CommittedReadError::InvalidHistorySelector,
        }
    }
}

/// What a failure is reported as.
pub open spec fn read_message(failure: ReadFailure) -> Seq<char> {
    match failure {
        CommittedReadError::Repository(source) => "committed repository read failed: "@ + git_message(source),
        CommittedReadError::Io(reason) => "committed content I/O failed: "@ + reason,
        CommittedReadError::OverlappingPaths => "repository and committed content roots must not overlap"@,
        CommittedReadError::InvalidOfficialBranch => "official Git branch is invalid"@,
        CommittedReadError::StorageReplaced => "committed repository storage was replaced"@,
        CommittedReadError::Busy => "Repository Worker is publishing committed content"@,
        CommittedReadError::CanonicalOutOfDate { official, checked_out } => "canonical worktree commit `"@ + checked_out.spec_text() + "` does not match official commit `"@ + official.spec_text() + "`"@,
        CommittedReadError::Content(source) => "committed content is invalid: "@ + index_message(source),
        CommittedReadError::PinnedPath(reason) => "committed path is invalid: "@ + reason,
        CommittedReadError::DocumentNotFound { document_id } => "document `"@ + ulid_text(document_id.value) + "` was not found"@,
        CommittedReadError::ContentChanged { document_id } => "document `"@ + ulid_text(document_id.value) + "` changed during a committed read"@,
        CommittedReadError::InvalidMarkdownEncoding { document_id } => "document `"@ + ulid_text(document_id.value) + "` is not UTF-8"@,
        CommittedReadError::EmptyQuery => "search query must not be empty"@,
        CommittedReadError::QueryTooLong { maximum, actual } => "search query has "@ + decimal(actual as nat) + " characters; maximum is "@ + decimal(maximum as nat),
        CommittedReadError::InvalidResultLimit => "maximum results must be positive"@,
        CommittedReadError::SearchDocumentLimitExceeded { maximum } => "search exceeds "@ + decimal(maximum as nat) + " inspected documents"@,
        CommittedReadError::SearchMarkdownByteLimitExceeded { maximum } => "search exceeds "@ + decimal(maximum as nat) + " inspected Markdown bytes"@,
        CommittedReadError::BundleEntryLimitExceeded { maximum } => "document bundle exceeds "@ + decimal(maximum as nat) + " files"@,
        CommittedReadError::BundleByteLimitExceeded { maximum } => "document bundle exceeds "@ + decimal(maximum as nat) + " bytes"@,
        CommittedReadError::OperationDeadlineExceeded => "committed read deadline expired"@,
        CommittedReadError::InvalidHistorySelector => "historical selector is invalid"@,
    }
}

impl CommittedReadError {
    /// What the failure is reported as.
    pub fn message(&self) -> (text: String)
        ensures
            text@ == read_message(self@),
    {
        let text = match self {
            CommittedReadError::Repository(source) => join2("committed repository read failed: ", source.message().as_str()),
            CommittedReadError::Io(reason) => join2("committed content I/O failed: ", reason.as_str()),
            CommittedReadError::OverlappingPaths => "repository and committed content roots must not overlap".to_owned(),
            CommittedReadError::InvalidOfficialBranch => "official Git branch is invalid".to_owned(),
            CommittedReadError::StorageReplaced => "committed repository storage was replaced".to_owned(),
            CommittedReadError::Busy => "Repository Worker is publishing committed content".to_owned(),
            CommittedReadError::CanonicalOutOfDate { official, checked_out } => join5("canonical worktree commit `", checked_out.text().as_str(), "` does not match official commit `", official.text().as_str(), "`"),
            CommittedReadError::Content(source) => join2("committed content is invalid: ", source.message().as_str()),
            CommittedReadError::PinnedPath(reason) => join2("committed path is invalid: ", reason.as_str()),
            CommittedReadError::DocumentNotFound { document_id } => join3("document `", document_id.text().as_str(), "` was not found"),
            CommittedReadError::ContentChanged { document_id } => join3("document `", document_id.text().as_str(), "` changed during a committed read"),
            CommittedReadError::InvalidMarkdownEncoding { document_id } => join3("document `", document_id.text().as_str(), "` is not UTF-8"),
            CommittedReadError::EmptyQuery => "search query must not be empty".to_owned(),
            CommittedReadError::QueryTooLong { maximum, actual } => join4("search query has ", decimal_text(*actual as u64).as_str(), " characters; maximum is ", decimal_text(*maximum as u64).as_str()),
            CommittedReadError::InvalidResultLimit => "maximum results must be positive".to_owned(),
            CommittedReadError::SearchDocumentLimitExceeded { maximum } => join3("search exceeds ", decimal_text(*maximum as u64).as_str(), " inspected documents"),
            CommittedReadError::SearchMarkdownByteLimitExceeded { maximum } => join3("search exceeds ", decimal_text(*maximum).as_str(), " inspected Markdown bytes"),
            CommittedReadError::BundleEntryLimitExceeded { maximum } => join3("document bundle exceeds ", decimal_text(*maximum as u64).as_str(), " files"),
            CommittedReadError::BundleByteLimitExceeded { maximum } => join3("document bundle exceeds ", decimal_text(*maximum).as_str(), " bytes"),
            CommittedReadError::OperationDeadlineExceeded => "committed read deadline expired".to_owned(),
            CommittedReadError::InvalidHistorySelector => "historical selector is invalid".to_owned(),
        };
        assert(text@ =~= read_message(self@));
        text
    }
}

} // verus!
