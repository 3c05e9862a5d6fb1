//! Where messages name two things or pass another message on, which stands where.
use crate::apply::{apply_message, ApplyFailure};
use crate::config::{config_message, ConfigFailure};
use crate::git_error::{git_message, GitFailure};
use crate::git_text::ObjectId;
use crate::ids::{revision_text, ulid_text, BatchId, DocumentId, RequestId, Revision};
use crate::index::{index_message, revision_check_message, IndexFailure, RevisionCheckError};
use crate::path::slashed;
use crate::processor::{processor_message, ProcessorFailure};
use crate::read_error::{read_message, ReadFailure};
use crate::replication::{replication_message, ReplicationFailure};
use crate::run_error::{recovery_message, run_message, RecoveryFailure, RunFailure};
use crate::search_error::{search_message, store_message, SearchFailure, StoreFailure};
use crate::status::{status_message, StatusFailure};
use crate::text::decimal;
use crate::topology::{open_message, OpenFailure};
use vstd::prelude::*;

verus! {

/// What was expected is named as expected, and what was found as found.
pub proof fn messages_name_what_was_found(
    document_id: DocumentId,
    expected: Revision,
    actual: Revision,
    official: ObjectId,
    other: ObjectId,
    first: Seq<char>,
    second: Seq<char>,
)
    ensures
        ({
            let conflict = "document `"@ + ulid_text(document_id.value)
                + "` revision conflict: expected `"@ + revision_text(expected) + "`, found `"@
                + revision_text(actual) + "`"@;
            &&& apply_message(ApplyFailure::RevisionConflict { document_id, expected, actual })
                == conflict
            &&& revision_check_message(
                RevisionCheckError::RevisionConflict { document_id, expected, actual },
            ) == conflict
        }),
        git_message(GitFailure::OfficialBranchChanged { expected: official, actual: other })
            == "official branch changed after pinning `"@ + official.spec_text() + "`; found `"@
            + other.spec_text() + "`"@,
        read_message(ReadFailure::CanonicalOutOfDate { official, checked_out: other })
            == "canonical worktree commit `"@ + other.spec_text()
            + "` does not match official commit `"@ + official.spec_text() + "`"@,
        processor_message(
            ProcessorFailure::SearchSnapshotCommitMismatch { expected: first, actual: second },
        ) == "committed search snapshot `"@ + second + "` does not match batch commit `"@ + first
            + "`"@,
        search_message(SearchFailure::SnapshotCommitMismatch { index: first, snapshot: second })
            == "search index commit `"@ + first + "` does not match snapshot commit `"@ + second
            + "`"@,
{
}

/// A limit is named as the limit, and what goes beyond it as what it is.
pub proof fn messages_name_limits(
    path: Seq<Seq<char>>,
    maximum: u64,
    actual: u64,
    most: usize,
    many: usize,
    manifest: u64,
    index: u64,
)
    ensures
        index_message(IndexFailure::AttachmentTooLarge { path, maximum, actual })
            == "content attachment `"@ + slashed(path) + "` is "@ + decimal(actual as nat)
            + " bytes; maximum is "@ + decimal(maximum as nat),
        index_message(IndexFailure::MarkdownTooLarge { path, maximum, actual }) == "Markdown `"@
            + slashed(path) + "` is "@ + decimal(actual as nat) + " bytes; maximum is "@ + decimal(
            maximum as nat,
        ),
        read_message(ReadFailure::QueryTooLong { maximum: most, actual: many })
            == "search query has "@ + decimal(many as nat) + " characters; maximum is "@ + decimal(
            most as nat,
        ),
        search_message(SearchFailure::QueryTooLong { maximum: most, actual: many })
            == "search query has "@ + decimal(many as nat) + " characters; maximum is "@ + decimal(
            most as nat,
        ),
        search_message(SearchFailure::DiskDocumentCountMismatch { manifest, index })
            == "persistent search index has "@ + decimal(index as nat)
            + " documents; manifest records "@ + decimal(manifest as nat),
{
}

/// Of two that do not go together, each is named in its own place.
pub proof fn messages_name_both(
    document_id: DocumentId,
    first_path: Seq<Seq<char>>,
    second_path: Seq<Seq<char>>,
    first: Seq<char>,
    second: Seq<char>,
    one: BatchId,
    other: BatchId,
    count: usize,
)
    ensures
        index_message(
            IndexFailure::DuplicateDocumentId { document_id, first_path, second_path },
        ) == "document ID `"@ + ulid_text(document_id.value) + "` appears in `"@ + slashed(
            first_path,
        ) + "` and `"@ + slashed(second_path) + "`"@,
        config_message(ConfigFailure::OverlappingPaths { first, second }) == "Worker paths `"@
            + first + "` and `"@ + second + "` must not overlap"@,
        open_message(OpenFailure::OverlappingPaths { first, second }) == "Worker paths `"@ + first
            + "` and `"@ + second + "` resolve to overlapping locations"@,
        run_message(
            RunFailure::TransactionBatchMismatch {
                processing: one,
                repository: other,
                failed_requests: count,
            },
        ) == "processing batch `"@ + ulid_text(one.value)
            + "` does not match repository batch `"@ + ulid_text(other.value) + "`"@,
        recovery_message(RecoveryFailure::MultipleProcessingBatches { expected: one, found: other })
            == "interrupted processing names batches `"@ + ulid_text(one.value) + "` and `"@
            + ulid_text(other.value) + "`"@,
        run_message(RunFailure::MultipleProcessingBatches { expected: one, found: other })
            == recovery_message(
            RecoveryFailure::MultipleProcessingBatches { expected: one, found: other },
        ),
{
}

/// Where a failure comes from another one, its message ends with the message of that one.
pub proof fn messages_pass_on_their_source(
    request_id: RequestId,
    applied: ApplyFailure,
    indexed: IndexFailure,
    git: GitFailure,
    read: ReadFailure,
    store: StoreFailure,
    search: SearchFailure,
    replication: ReplicationFailure,
    processor: ProcessorFailure,
    recovery: RecoveryFailure,
    opened: OpenFailure,
    count: usize,
)
    ensures
        apply_message(ApplyFailure::ContentIndex(indexed)) == "base content is invalid: "@
            + index_message(indexed),
        apply_message(ApplyFailure::ResultingContent(indexed)) == "resulting content is invalid: "@
            + index_message(indexed),
        git_message(GitFailure::Apply { request_id, source: applied }) == "request `"@ + ulid_text(
            request_id.value,
        ) + "` could not be isolated: "@ + apply_message(applied),
        read_message(ReadFailure::Repository(git)) == "committed repository read failed: "@
            + git_message(git),
        read_message(ReadFailure::Content(indexed)) == "committed content is invalid: "@
            + index_message(indexed),
        search_message(SearchFailure::Committed(read)) == "committed search input failed: "@
            + read_message(read),
        store_message(StoreFailure::Search(search)) == "search index validation failed: "@
            + search_message(search),
        replication_message(ReplicationFailure::Repository(git))
            == "local repository validation failed: "@ + git_message(git),
        processor_message(ProcessorFailure::Repository(git)) == "repository transaction failed: "@
            + git_message(git),
        processor_message(ProcessorFailure::CommittedRead(read))
            == "committed search snapshot failed: "@ + read_message(read),
        processor_message(ProcessorFailure::SearchIndex(store))
            == "search index publication failed: "@ + store_message(store),
        run_message(RunFailure::Processor { source: processor, failed_requests: count })
            == "Worker batch processing failed: "@ + processor_message(processor),
        run_message(RunFailure::StartupRecovery { source: recovery, failed_requests: count })
            == "Worker startup recovery failed: "@ + recovery_message(recovery),
        status_message(StatusFailure::Topology(opened)) == "invalid Worker topology: "@
            + open_message(opened),
        status_message(StatusFailure::Repository(read)) == "could not inspect repository: "@
            + read_message(read),
        status_message(StatusFailure::Replication(replication))
            == "could not inspect remote replication: "@ + replication_message(replication),
        open_message(OpenFailure::Repository(git)) == "could not open repository: "@ + git_message(
            git,
        ),
        open_message(OpenFailure::Replication(replication))
            == "could not open remote replication: "@ + replication_message(replication),
{
}

} // verus!
